//! The set of series: at most one metric of each identity, the latest one.

use crate::metric::{same_series, Metric, MetricView};
use vstd::prelude::*;

verus! {

/// Whether no two metrics of `s` are the same series.
pub open spec fn distinct_series(s: Seq<MetricView>) -> bool {
    forall|i: int, j: int| 0 <= i < j < s.len() ==> !same_series(#[trigger] s[i], #[trigger] s[j])
}

/// The index of the first metric at or after `from` that is the same series
/// as `m`.
pub open spec fn series_at(s: Seq<MetricView>, m: MetricView, from: int) -> Option<int>
    decreases s.len() - from,
{
    if from < 0 || from >= s.len() {
        None
    } else if same_series(s[from], m) {
        Some(from)
    } else {
        series_at(s, m, from + 1)
    }
}

/// `s` after `m` was stored: `m` stands in the place of the metric that was
/// the same series, or at the end if there was none.
pub open spec fn stored(s: Seq<MetricView>, m: MetricView) -> Seq<MetricView> {
    match series_at(s, m, 0) {
        Some(i) => s.update(i, m),
        None => s.push(m),
    }
}

/// What `series_at` finds is the first metric of that series, and `None`
/// means that there is none.
pub proof fn lemma_series_at(s: Seq<MetricView>, m: MetricView, from: int)
    requires
        0 <= from,
    ensures
        match series_at(s, m, from) {
            Some(i) => from <= i < s.len() && same_series(s[i], m),
            None => forall|j: int| from <= j < s.len() ==> !same_series(#[trigger] s[j], m),
        },
    decreases s.len() - from,
{
    if from < s.len() && !same_series(s[from], m) {
        lemma_series_at(s, m, from + 1);
    }
}

/// Storing keeps the series distinct.
pub proof fn lemma_stored_distinct(s: Seq<MetricView>, m: MetricView)
    requires
        distinct_series(s),
    ensures
        distinct_series(stored(s, m)),
{
    lemma_series_at(s, m, 0);
    let t = stored(s, m);
    assert forall|i: int, j: int| 0 <= i < j < t.len() implies !same_series(
        #[trigger] t[i],
        #[trigger] t[j],
    ) by {
        match series_at(s, m, 0) {
            Some(k) => {
                assert(same_series(s[k], m));
                if i == k {
                    assert(!same_series(s[k], s[j]));
                } else if j == k {
                    assert(!same_series(s[i], s[k]));
                } else {
                    assert(!same_series(s[i], s[j]));
                }
            },
            None => {
                if j < s.len() {
                    assert(!same_series(s[i], s[j]));
                } else {
                    assert(!same_series(s[i], m));
                }
            },
        }
    }
}

/// Storing a second metric of a series after a first one replaces it: the
/// set holds that series once, with the value and the timestamp of the
/// second, and is no longer than after the first.
pub proof fn lemma_store_twice_replaces(s: Seq<MetricView>, m1: MetricView, m2: MetricView)
    requires
        distinct_series(s),
        same_series(m1, m2),
    ensures
        stored(stored(s, m1), m2).len() == stored(s, m1).len(),
        distinct_series(stored(stored(s, m1), m2)),
        exists|i: int|
            0 <= i < stored(stored(s, m1), m2).len() && #[trigger] stored(stored(s, m1), m2)[i]
                == m2,
        forall|i: int, j: int|
            #![trigger stored(stored(s, m1), m2)[i], stored(stored(s, m1), m2)[j]]
            0 <= i < stored(stored(s, m1), m2).len() && 0 <= j < stored(stored(s, m1), m2).len()
                && same_series(stored(stored(s, m1), m2)[i], m1) && same_series(
                stored(stored(s, m1), m2)[j],
                m1,
            ) ==> i == j,
{
    let t1 = stored(s, m1);
    let t2 = stored(t1, m2);
    lemma_series_at(s, m1, 0);
    lemma_stored_distinct(s, m1);
    lemma_series_at(t1, m2, 0);
    lemma_stored_distinct(t1, m2);
    let k = match series_at(s, m1, 0) {
        Some(k) => k,
        None => s.len() as int,
    };
    assert(t1[k] == m1);
    assert(same_series(t1[k], m2));
    assert(series_at(t1, m2, 0) is Some);
    let k2 = series_at(t1, m2, 0)->0;
    assert(t2[k2] == m2);
    assert forall|i: int, j: int|
        0 <= i < t2.len() && 0 <= j < t2.len() && same_series(#[trigger] t2[i], m1) && same_series(
            #[trigger] t2[j],
            m1,
        ) implies i == j by {
        if i < j {
            assert(!same_series(t2[i], t2[j]));
        } else if j < i {
            assert(!same_series(t2[j], t2[i]));
        }
    }
}

/// A set of series, in the order in which each was first stored.
#[derive(Debug)]
pub struct Metrics {
    gauges: Vec<Metric>,
}

impl View for Metrics {
    type V = Seq<MetricView>;

    closed spec fn view(&self) -> Seq<MetricView> {
        self.gauges.deep_view()
    }
}

impl Metrics {
    #[verifier::type_invariant]
    spec fn well_formed(&self) -> bool {
        distinct_series(self.gauges.deep_view())
    }

    /// The empty set.
    pub fn new() -> (series: Metrics)
        ensures
            series@ == Seq::<MetricView>::empty(),
    {
        let gauges: Vec<Metric> = Vec::new();
        assert(gauges.deep_view() =~= Seq::empty());
        Metrics { gauges }
    }

    /// How many series the set holds.
    pub fn len(&self) -> (n: usize)
        ensures
            n == self@.len(),
    {
        self.gauges.len()
    }

    /// Whether the set holds no series.
    pub fn is_empty(&self) -> (empty: bool)
        ensures
            empty == (self@.len() == 0),
    {
        self.gauges.len() == 0
    }

    /// The metrics of the set, in order. No two are the same series.
    pub fn gauges(&self) -> (gauges: &Vec<Metric>)
        ensures
            gauges.deep_view() == self@,
            distinct_series(self@),
    {
        proof {
            use_type_invariant(self);
        }
        &self.gauges
    }

    /// Stores `metric`: it replaces the metric of the same series if the
    /// set holds one, and is added at the end otherwise.
    pub fn store(&mut self, metric: Metric)
        ensures
            final(self)@ == stored(old(self)@, metric.deep_view()),
    {
        proof {
            use_type_invariant(&*self);
            lemma_stored_distinct(self@, metric.deep_view());
        }
        let ghost before = self@;
        let ghost m = metric.deep_view();
        let mut taken = Metrics::new();
        core::mem::swap(self, &mut taken);
        let Metrics { gauges } = taken;
        let mut gauges = gauges;
        let mut i: usize = 0;
        while i < gauges.len()
            invariant
                i <= gauges.len(),
                gauges.deep_view() == before,
                before == old(self)@,
                m == metric.deep_view(),
                series_at(before, m, 0) == series_at(before, m, i as int),
                distinct_series(stored(before, m)),
            decreases gauges.len() - i,
        {
            assert(before[i as int] == gauges@[i as int].deep_view());
            if gauges[i].same_series(&metric) {
                gauges.set(i, metric);
                assert(gauges.deep_view() =~= before.update(i as int, m));
                *self = Metrics { gauges };
                return ;
            }
            i += 1;
        }
        gauges.push(metric);
        assert(gauges.deep_view() =~= before.push(m));
        *self = Metrics { gauges };
    }
}

impl Default for Metrics {
    fn default() -> (series: Metrics)
        ensures
            series@ == Seq::<MetricView>::empty(),
    {
        Metrics::new()
    }
}

impl Metric {
    /// Stores this metric in `series`, in the place of the metric of the
    /// same series if there is one.
    pub fn insert(self, series: &mut Metrics)
        ensures
            final(series)@ == stored(old(series)@, self.deep_view()),
    {
        series.store(self);
    }
}

} // verus!

//! The metric: a named, labelled, timestamped sample, and the set of series
//! that keeps the latest sample of each.

use crate::finding::Label;
use crate::sanitize::{
    is_label_char, is_label_text, lemma_sanitized_is_label_text, sanitize_for_prometheus,
    sanitized,
};
use crate::text::{
    chars_of, decimal, digit_char, push_char, push_decimal, push_text, same_text,
};
use vstd::prelude::*;

verus! {

/// Whether `c` is a decimal digit.
pub open spec fn is_digit(c: char) -> bool {
    '0' <= c && c <= '9'
}

/// Whether `s` is a number in plain decimal form: digits, with at most one
/// point, which stands between two digits.
pub open spec fn is_decimal(s: Seq<char>) -> bool {
    &&& s.len() > 0
    &&& is_digit(s[0])
    &&& is_digit(s[s.len() - 1])
    &&& forall|i: int| 0 <= i < s.len() ==> is_digit(#[trigger] s[i]) || s[i] == '.'
    &&& forall|i: int, j: int|
        0 <= i < j < s.len() ==> (#[trigger] s[i]) != '.' || (#[trigger] s[j]) != '.'
}

/// Whether `s` is `inf` or a number in plain decimal form.
pub open spec fn is_magnitude(s: Seq<char>) -> bool {
    s =~= seq!['i', 'n', 'f'] || is_decimal(s)
}

/// Whether `s` is the decimal form of a 64-bit float: `NaN`, or `inf` or a
/// number in plain decimal form, with or without a minus sign before it.
pub open spec fn is_sample_text(s: Seq<char>) -> bool {
    ||| s =~= seq!['N', 'a', 'N']
    ||| is_magnitude(s)
    ||| (s.len() > 0 && s[0] == '-' && is_magnitude(s.skip(1)))
}

/// Whether `s` holds no line feed.
pub open spec fn is_one_line(s: Seq<char>) -> bool {
    forall|i: int| 0 <= i < s.len() ==> (#[trigger] s[i]) != '\n'
}

/// The decimal form of a float holds neither a blank nor a line feed.
pub proof fn lemma_sample_text_is_one_word(s: Seq<char>)
    requires
        is_sample_text(s),
    ensures
        is_one_line(s),
        forall|i: int| 0 <= i < s.len() ==> (#[trigger] s[i]) != ' ',
{
    assert forall|i: int| 0 <= i < s.len() implies (#[trigger] s[i]) != '\n' && s[i] != ' ' by {
        if s =~= seq!['N', 'a', 'N'] {
        } else if s =~= seq!['i', 'n', 'f'] {
        } else if is_decimal(s) {
        } else {
            let t = s.skip(1);
            if i > 0 {
                assert(t[i - 1] == s[i]);
            }
        }
    }
}

/// A sample value, held as the decimal text that it is rendered with: the
/// decimal form of a 64-bit float. The library does no arithmetic on
/// samples: it carries them from where a number was read to where it is
/// written.
#[derive(Debug, PartialEq, Eq)]
pub struct Sample {
    text: String,
}

impl DeepView for Sample {
    type V = Seq<char>;

    closed spec fn deep_view(&self) -> Seq<char> {
        self.text@
    }
}

fn digit_at(v: &Vec<char>, i: usize) -> (yes: bool)
    requires
        i < v.len(),
    ensures
        yes == is_digit(v@[i as int]),
{
    v[i] >= '0' && v[i] <= '9'
}

fn decimal_from(v: &Vec<char>, from: usize) -> (yes: bool)
    requires
        from <= v.len(),
    ensures
        yes == is_decimal(v@.skip(from as int)),
{
    let n = v.len();
    let ghost s = v@.skip(from as int);
    if from >= n {
        return false;
    }
    assert(s[0] == v@[from as int]);
    assert(s[s.len() - 1] == v@[n - 1]);
    if !digit_at(v, from) || !digit_at(v, n - 1) {
        return false;
    }
    let mut seen = false;
    let ghost mut point: int = 0;
    let mut i: usize = from;
    while i < n
        invariant
            from <= i <= n,
            n == v.len(),
            s == v@.skip(from as int),
            seen ==> from <= point < i && v@[point] == '.',
            !seen ==> forall|k: int| from <= k < i ==> v@[k] != '.',
            forall|k: int| from <= k < i ==> is_digit(v@[k]) || v@[k] == '.',
            forall|a: int, b: int| from <= a < b < i ==> v@[a] != '.' || v@[b] != '.',
        decreases n - i,
    {
        if v[i] == '.' {
            if seen {
                assert(s[point - from] == '.' && s[i - from] == '.');
                return false;
            }
            seen = true;
            proof {
                point = i as int;
            }
        } else if !digit_at(v, i) {
            assert(s[i - from] == v@[i as int]);
            return false;
        }
        i += 1;
    }
    assert forall|k: int| 0 <= k < s.len() implies is_digit(#[trigger] s[k]) || s[k] == '.' by {
        assert(s[k] == v@[k + from]);
    }
    assert forall|a: int, b: int| 0 <= a < b < s.len() implies (#[trigger] s[a]) != '.' || (
    #[trigger] s[b]) != '.' by {
        assert(s[a] == v@[a + from] && s[b] == v@[b + from]);
    }
    true
}

fn magnitude_from(v: &Vec<char>, from: usize) -> (yes: bool)
    requires
        from <= v.len(),
    ensures
        yes == is_magnitude(v@.skip(from as int)),
{
    let ghost s = v@.skip(from as int);
    if v.len() - from == 3 && v[from] == 'i' && v[from + 1] == 'n' && v[from + 2] == 'f' {
        assert(s =~= seq!['i', 'n', 'f']);
        return true;
    }
    proof {
        if s =~= seq!['i', 'n', 'f'] {
            assert(s[0] == 'i' && s[1] == 'n' && s[2] == 'f');
            assert(false);
        }
    }
    decimal_from(v, from)
}

impl Sample {
    #[verifier::type_invariant]
    spec fn well_formed(&self) -> bool {
        is_sample_text(self.text@)
    }

    /// Whether `text` is the decimal form of a 64-bit float, and so can be
    /// the text of a sample.
    pub fn is_valid(text: &str) -> (yes: bool)
        ensures
            yes == is_sample_text(text@),
    {
        let v = chars_of(text);
        assert(v@.skip(0) =~= v@);
        if v.len() == 3 && v[0] == 'N' && v[1] == 'a' && v[2] == 'N' {
            assert(v@ =~= seq!['N', 'a', 'N']);
            return true;
        }
        proof {
            if v@ =~= seq!['N', 'a', 'N'] {
                assert(v@[0] == 'N' && v@[1] == 'a' && v@[2] == 'N');
                assert(false);
            }
        }
        if magnitude_from(&v, 0) {
            return true;
        }
        v.len() > 0 && v[0] == '-' && magnitude_from(&v, 1)
    }

    /// The sample that is written as `text`, which is the decimal form of
    /// a 64-bit float.
    pub fn new(text: String) -> (sample: Sample)
        requires
            is_sample_text(text@),
        ensures
            sample.deep_view() == text@,
    {
        Sample { text }
    }

    /// The sample that is written as `text`, if `text` is the decimal form
    /// of a 64-bit float.
    pub fn checked(text: String) -> (sample: Option<Sample>)
        ensures
            sample is Some <==> is_sample_text(text@),
            sample matches Some(s) ==> s.deep_view() == text@,
    {
        if Sample::is_valid(text.as_str()) {
            Some(Sample::new(text))
        } else {
            None
        }
    }

    /// A second sample with the same text.
    pub fn duplicate(&self) -> (sample: Sample)
        ensures
            sample.deep_view() == self.deep_view(),
    {
        proof {
            use_type_invariant(self);
        }
        Sample { text: self.text.clone() }
    }

    /// The decimal text of the sample.
    pub fn text(&self) -> (text: &str)
        ensures
            text@ == self.deep_view(),
            is_sample_text(text@),
    {
        proof {
            use_type_invariant(self);
        }
        self.text.as_str()
    }
}

/// The mathematical content of a [`Metric`].
pub struct MetricView {
    pub name: Seq<char>,
    pub value: Seq<char>,
    pub timestamp: Option<u128>,
    pub labels: Seq<(Seq<char>, Seq<char>)>,
}

/// What holds of the labels of every metric: keys and values are made of
/// label characters only, and no key occurs twice.
pub open spec fn labels_valid(labels: Seq<(Seq<char>, Seq<char>)>) -> bool {
    &&& forall|i: int|
        0 <= i < labels.len() ==> is_label_text((#[trigger] labels[i]).0) && is_label_text(
            labels[i].1,
        )
    &&& forall|i: int, j: int|
        0 <= i < j < labels.len() ==> (#[trigger] labels[i]).0 != (#[trigger] labels[j]).0
}

/// The index of the first label at or after `from` whose key is `key`.
pub open spec fn key_at(labels: Seq<(Seq<char>, Seq<char>)>, key: Seq<char>, from: int) -> Option<
    int,
>
    decreases labels.len() - from,
{
    if from < 0 || from >= labels.len() {
        None
    } else if labels[from].0 == key {
        Some(from)
    } else {
        key_at(labels, key, from + 1)
    }
}

/// `labels` with `key` set to `value`: in the place of the label that had
/// the key, or at the end if none had it.
pub open spec fn labelled(labels: Seq<(Seq<char>, Seq<char>)>, key: Seq<char>, value: Seq<char>) -> Seq<
    (Seq<char>, Seq<char>),
> {
    match key_at(labels, key, 0) {
        Some(i) => labels.update(i, (key, value)),
        None => labels.push((key, value)),
    }
}

/// Whether two metrics are the same series: the same name and the same
/// labels, in whatever order. Value and timestamp play no part.
pub open spec fn same_series(a: MetricView, b: MetricView) -> bool {
    a.name == b.name && a.labels.to_set() == b.labels.to_set()
}

/// `key="value"`.
pub open spec fn rendered_label(label: (Seq<char>, Seq<char>)) -> Seq<char> {
    label.0 + seq!['=', '"'] + label.1 + seq!['"']
}

/// The first `upto` labels, rendered and separated by commas.
pub open spec fn rendered_label_list(labels: Seq<(Seq<char>, Seq<char>)>, upto: int) -> Seq<char>
    decreases upto,
{
    if upto <= 0 {
        Seq::empty()
    } else if upto == 1 {
        rendered_label(labels[0])
    } else {
        rendered_label_list(labels, upto - 1) + seq![','] + rendered_label(labels[upto - 1])
    }
}

/// The labels between braces; nothing at all where there is no label.
pub open spec fn rendered_labels(labels: Seq<(Seq<char>, Seq<char>)>) -> Seq<char> {
    if labels.len() == 0 {
        Seq::empty()
    } else {
        seq!['{'] + rendered_label_list(labels, labels.len() as int) + seq!['}']
    }
}

/// The timestamp in whole milliseconds; nothing where there is none.
pub open spec fn rendered_timestamp(timestamp: Option<u128>) -> Seq<char> {
    match timestamp {
        Some(t) => decimal(t as nat),
        None => Seq::empty(),
    }
}

/// One line of the exposition: name, labels, value and timestamp.
pub open spec fn rendered_metric(m: MetricView) -> Seq<char> {
    m.name + rendered_labels(m.labels) + seq![' '] + m.value + seq![' '] + rendered_timestamp(
        m.timestamp,
    )
}

/// What holds of every metric: its labels are valid and its value is the
/// decimal form of a 64-bit float.
pub open spec fn metric_valid(m: MetricView) -> bool {
    labels_valid(m.labels) && is_sample_text(m.value)
}

proof fn lemma_joined_is_one_line(a: Seq<char>, b: Seq<char>)
    requires
        is_one_line(a),
        is_one_line(b),
    ensures
        is_one_line(a + b),
{
    assert forall|i: int| 0 <= i < (a + b).len() implies (#[trigger] (a + b)[i]) != '\n' by {
        if i < a.len() {
            assert((a + b)[i] == a[i]);
        } else {
            assert((a + b)[i] == b[i - a.len()]);
        }
    }
}

proof fn lemma_decimal_is_one_line(n: nat)
    ensures
        is_one_line(decimal(n)),
    decreases n,
{
    if n >= 10 {
        lemma_decimal_is_one_line(n / 10);
        assert(is_one_line(seq![digit_char(n % 10)]));
        assert(decimal(n) =~= decimal(n / 10) + seq![digit_char(n % 10)]);
        lemma_joined_is_one_line(decimal(n / 10), seq![digit_char(n % 10)]);
    }
}

proof fn lemma_label_is_one_line(label: (Seq<char>, Seq<char>))
    requires
        is_label_text(label.0),
        is_label_text(label.1),
    ensures
        is_one_line(rendered_label(label)),
{
    assert(is_one_line(label.0)) by {
        assert forall|i: int| 0 <= i < label.0.len() implies (#[trigger] label.0[i]) != '\n' by {
            assert(is_label_char(label.0[i]));
        }
    }
    assert(is_one_line(label.1)) by {
        assert forall|i: int| 0 <= i < label.1.len() implies (#[trigger] label.1[i]) != '\n' by {
            assert(is_label_char(label.1[i]));
        }
    }
    lemma_joined_is_one_line(label.0, seq!['=', '"']);
    lemma_joined_is_one_line(label.0 + seq!['=', '"'], label.1);
    lemma_joined_is_one_line(label.0 + seq!['=', '"'] + label.1, seq!['"']);
}

proof fn lemma_label_list_is_one_line(labels: Seq<(Seq<char>, Seq<char>)>, upto: int)
    requires
        labels_valid(labels),
        0 <= upto <= labels.len(),
    ensures
        is_one_line(rendered_label_list(labels, upto)),
    decreases upto,
{
    if upto == 1 {
        lemma_label_is_one_line(labels[0]);
    } else if upto > 1 {
        lemma_label_list_is_one_line(labels, upto - 1);
        lemma_label_is_one_line(labels[upto - 1]);
        lemma_joined_is_one_line(rendered_label_list(labels, upto - 1), seq![',']);
        lemma_joined_is_one_line(
            rendered_label_list(labels, upto - 1) + seq![','],
            rendered_label(labels[upto - 1]),
        );
    }
}

/// The line of a valid metric whose name holds no line feed holds none: it
/// is one line of the exposition.
pub proof fn lemma_rendered_metric_is_one_line(m: MetricView)
    requires
        metric_valid(m),
        is_one_line(m.name),
    ensures
        is_one_line(rendered_metric(m)),
{
    lemma_sample_text_is_one_word(m.value);
    let labels = rendered_labels(m.labels);
    assert(is_one_line(labels)) by {
        if m.labels.len() > 0 {
            lemma_label_list_is_one_line(m.labels, m.labels.len() as int);
            lemma_joined_is_one_line(seq!['{'], rendered_label_list(m.labels, m.labels.len() as int));
            lemma_joined_is_one_line(
                seq!['{'] + rendered_label_list(m.labels, m.labels.len() as int),
                seq!['}'],
            );
        }
    }
    let stamp = rendered_timestamp(m.timestamp);
    assert(is_one_line(stamp)) by {
        if m.timestamp is Some {
            lemma_decimal_is_one_line(m.timestamp->0 as nat);
        }
    }
    lemma_joined_is_one_line(m.name, labels);
    lemma_joined_is_one_line(m.name + labels, seq![' ']);
    lemma_joined_is_one_line(m.name + labels + seq![' '], m.value);
    lemma_joined_is_one_line(m.name + labels + seq![' '] + m.value, seq![' ']);
    lemma_joined_is_one_line(m.name + labels + seq![' '] + m.value + seq![' '], stamp);
}

/// One named, labelled, timestamped sample.
#[derive(Debug)]
pub struct Metric {
    name: String,
    value: Sample,
    timestamp: Option<u128>,
    labels: Vec<Label>,
}

impl DeepView for Metric {
    type V = MetricView;

    closed spec fn deep_view(&self) -> MetricView {
        MetricView {
            name: self.name@,
            value: self.value.deep_view(),
            timestamp: self.timestamp,
            labels: self.labels.deep_view(),
        }
    }
}

proof fn lemma_key_at(labels: Seq<(Seq<char>, Seq<char>)>, key: Seq<char>, from: int)
    requires
        0 <= from,
    ensures
        match key_at(labels, key, from) {
            Some(i) => from <= i < labels.len() && labels[i].0 == key,
            None => forall|j: int| from <= j < labels.len() ==> (#[trigger] labels[j]).0 != key,
        },
    decreases labels.len() - from,
{
    if from < labels.len() && labels[from].0 != key {
        lemma_key_at(labels, key, from + 1);
    }
}

/// Setting a label keeps the labels valid.
pub proof fn lemma_labelled_valid(
    labels: Seq<(Seq<char>, Seq<char>)>,
    key: Seq<char>,
    value: Seq<char>,
)
    requires
        labels_valid(labels),
        is_label_text(key),
        is_label_text(value),
    ensures
        labels_valid(labelled(labels, key, value)),
{
    lemma_key_at(labels, key, 0);
    let after = labelled(labels, key, value);
    assert forall|i: int, j: int| 0 <= i < j < after.len() implies (#[trigger] after[i]).0 != (
    #[trigger] after[j]).0 by {
        if key_at(labels, key, 0) is Some {
            assert(after[i].0 == labels[i].0);
            assert(after[j].0 == labels[j].0);
        } else {
            if j < labels.len() {
                assert(after[i] == labels[i] && after[j] == labels[j]);
            } else {
                assert(after[i] == labels[i]);
            }
        }
    }
    assert forall|i: int| 0 <= i < after.len() implies is_label_text((#[trigger] after[i]).0)
        && is_label_text(after[i].1) by {
        if key_at(labels, key, 0) is Some {
            if i != key_at(labels, key, 0)->0 {
                assert(after[i] == labels[i]);
            }
        } else {
            if i < labels.len() {
                assert(after[i] == labels[i]);
            }
        }
    }
}

impl Metric {
    #[verifier::type_invariant]
    spec fn well_formed(&self) -> bool {
        labels_valid(self.labels.deep_view())
    }

    /// A metric without labels, sampled at `timestamp`, in milliseconds
    /// since the epoch.
    pub fn new(name: &str, value: Sample, timestamp: u128) -> (metric: Metric)
        ensures
            metric.deep_view() == (MetricView {
                name: name@,
                value: value.deep_view(),
                timestamp: Some(timestamp),
                labels: Seq::empty(),
            }),
    {
        let labels: Vec<Label> = Vec::new();
        assert(labels.deep_view() =~= Seq::empty());
        Metric { name: name.to_owned(), value, timestamp: Some(timestamp), labels }
    }

    /// The name of the series.
    pub fn name(&self) -> (name: &str)
        ensures
            name@ == self.deep_view().name,
    {
        self.name.as_str()
    }

    /// The sample.
    pub fn value(&self) -> (value: &Sample)
        ensures
            value.deep_view() == self.deep_view().value,
            is_sample_text(value.deep_view()),
    {
        proof {
            use_type_invariant(&self.value);
        }
        &self.value
    }

    /// When the sample was taken, in milliseconds since the epoch.
    pub fn timestamp(&self) -> (timestamp: Option<u128>)
        ensures
            timestamp == self.deep_view().timestamp,
    {
        self.timestamp
    }

    /// The labels, in the order in which their keys were first set.
    pub fn labels(&self) -> (labels: &Vec<Label>)
        ensures
            labels.deep_view() == self.deep_view().labels,
            labels_valid(labels.deep_view()),
    {
        proof {
            use_type_invariant(self);
        }
        &self.labels
    }

    /// Sets a label. Key and value pass the label filter first; a label
    /// that already has the filtered key is replaced in its place.
    pub fn with_label(self, key: &str, value: &str) -> (metric: Metric)
        ensures
            metric.deep_view() == (MetricView {
                labels: labelled(self.deep_view().labels, sanitized(key@), sanitized(value@)),
                ..self.deep_view()
            }),
    {
        proof {
            use_type_invariant(&self);
            lemma_sanitized_is_label_text(key@);
            lemma_sanitized_is_label_text(value@);
            lemma_labelled_valid(self.labels.deep_view(), sanitized(key@), sanitized(value@));
        }
        let k = sanitize_for_prometheus(key);
        let v = sanitize_for_prometheus(value);
        let Metric { name, value: sample, timestamp, labels } = self;
        let mut labels = labels;
        let ghost before = labels.deep_view();
        let mut i: usize = 0;
        while i < labels.len()
            invariant
                i <= labels.len(),
                labels.deep_view() == before,
                key_at(before, k@, 0) == key_at(before, k@, i as int),
                k@ == sanitized(key@),
                v@ == sanitized(value@),
                labels_valid(labelled(before, k@, v@)),
                self.deep_view() == (MetricView {
                    name: name@,
                    value: sample.deep_view(),
                    timestamp,
                    labels: before,
                }),
            decreases labels.len() - i,
        {
            if same_text(labels[i].key.as_str(), k.as_str()) {
                labels.set(i, Label { key: k, value: v });
                assert(labels.deep_view() =~= before.update(i as int, (k@, v@)));
                return Metric { name, value: sample, timestamp, labels };
            }
            i += 1;
        }
        labels.push(Label { key: k, value: v });
        assert(labels.deep_view() =~= before.push((k@, v@)));
        Metric { name, value: sample, timestamp, labels }
    }

    /// Whether `other` is the same series: the same name and the same
    /// labels.
    pub fn same_series(&self, other: &Metric) -> (same: bool)
        ensures
            same == same_series(self.deep_view(), other.deep_view()),
    {
        if !same_text(self.name.as_str(), other.name.as_str()) {
            return false;
        }
        let forth = covers(&self.labels, &other.labels);
        let back = covers(&other.labels, &self.labels);
        proof {
            let a = self.labels.deep_view();
            let b = other.labels.deep_view();
            if forth && back {
                assert(a.to_set() =~= b.to_set());
            } else {
                if a.to_set() == b.to_set() {
                    assert forall|i: int| 0 <= i < a.len() implies b.contains(#[trigger] a[i]) by {
                        assert(a.to_set().contains(a[i]));
                    }
                    assert forall|i: int| 0 <= i < b.len() implies a.contains(#[trigger] b[i]) by {
                        assert(b.to_set().contains(b[i]));
                    }
                }
            }
        }
        forth && back
    }

    /// The line that the exposition holds for this metric. It is one line
    /// if the name holds no line feed.
    pub fn render(&self) -> (line: String)
        ensures
            line@ == rendered_metric(self.deep_view()),
            metric_valid(self.deep_view()),
            is_one_line(self.deep_view().name) ==> is_one_line(line@),
    {
        proof {
            use_type_invariant(self);
            use_type_invariant(&self.value);
            if is_one_line(self.deep_view().name) {
                lemma_rendered_metric_is_one_line(self.deep_view());
            }
        }
        let mut line = self.name.clone();
        let n = self.labels.len();
        if n > 0 {
            push_char(&mut line, '{');
            let ghost head = line@;
            let mut i: usize = 0;
            while i < n
                invariant
                    n == self.labels.len(),
                    i <= n,
                    line@ == head + rendered_label_list(self.labels.deep_view(), i as int),
                decreases n - i,
            {
                let ghost list = rendered_label_list(self.labels.deep_view(), i as int);
                if i > 0 {
                    push_char(&mut line, ',');
                }
                push_text(&mut line, self.labels[i].key.as_str());
                push_char(&mut line, '=');
                push_char(&mut line, '"');
                push_text(&mut line, self.labels[i].value.as_str());
                push_char(&mut line, '"');
                proof {
                    let l = self.labels.deep_view()[i as int];
                    assert(l == (self.labels@[i as int].key@, self.labels@[i as int].value@));
                    if i == 0 {
                        assert(list =~= Seq::empty());
                        assert(line@ =~= head + rendered_label(l));
                    } else {
                        assert(line@ =~= head + (list + seq![','] + rendered_label(l)));
                    }
                }
                i += 1;
            }
            push_char(&mut line, '}');
            assert(line@ =~= self.name@ + rendered_labels(self.labels.deep_view()));
        } else {
            assert(line@ =~= self.name@ + rendered_labels(self.labels.deep_view()));
        }
        push_char(&mut line, ' ');
        push_text(&mut line, self.value.text());
        push_char(&mut line, ' ');
        match self.timestamp {
            Some(t) => {
                push_decimal(&mut line, t);
            },
            None => {},
        }
        assert(line@ =~= rendered_metric(self.deep_view()));
        line
    }
}

/// Whether every label of `a` is a label of `b`, key and value.
fn covers(a: &Vec<Label>, b: &Vec<Label>) -> (all: bool)
    ensures
        all == forall|i: int| 0 <= i < a.len() ==> b.deep_view().contains(#[trigger] a.deep_view()[i]),
{
    let mut i: usize = 0;
    while i < a.len()
        invariant
            i <= a.len(),
            forall|k: int| 0 <= k < i ==> b.deep_view().contains(#[trigger] a.deep_view()[k]),
        decreases a.len() - i,
    {
        let mut hit = false;
        let mut j: usize = 0;
        while j < b.len()
            invariant
                i < a.len(),
                j <= b.len(),
                hit ==> b.deep_view().contains(a.deep_view()[i as int]),
                !hit ==> forall|k: int| 0 <= k < j ==> b.deep_view()[k] != a.deep_view()[i as int],
            decreases b.len() - j,
        {
            if same_text(a[i].key.as_str(), b[j].key.as_str()) && same_text(
                a[i].value.as_str(),
                b[j].value.as_str(),
            ) {
                assert(b.deep_view()[j as int] == a.deep_view()[i as int]);
                hit = true;
            }
            j += 1;
        }
        if !hit {
            assert(!b.deep_view().contains(a.deep_view()[i as int]));
            return false;
        }
        i += 1;
    }
    true
}

} // verus!

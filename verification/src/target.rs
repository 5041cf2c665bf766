//! A target: one URL with its rules, set up once and scraped again and
//! again.

use crate::extractor::{compiles, CompileError, Extractor};
use crate::finding::{Finding, RuleError};
use crate::measure::series_view;
use crate::metric::Sample;
use crate::finding::findings_view;
use crate::query::Queried;
use crate::rule::{rule_findings, rule_measured, rule_scraped, rule_stored, Rule, RuleView};
use crate::series::Metrics;
use crate::text::{chars_of, same_text};
use vstd::prelude::*;

verus! {

/// One URL to fetch on a schedule, with the rules that read its response.
pub struct Target {
    name: String,
    url: String,
    headers: Vec<(String, String)>,
    cron: String,
    extractor: Extractor,
    rules: Vec<Rule>,
}

/// The mathematical content of a [`Target`].
pub struct TargetView {
    pub name: Seq<char>,
    pub url: Seq<char>,
    pub headers: Seq<(Seq<char>, Seq<char>)>,
    pub cron: Seq<char>,
    pub extractor: Extractor,
    pub rules: Seq<RuleView>,
}

/// The contents of a list of rules.
pub open spec fn rule_views(rules: Seq<Rule>) -> Seq<RuleView> {
    Seq::new(rules.len(), |i: int| rules[i]@)
}

impl View for Target {
    type V = TargetView;

    closed spec fn view(&self) -> TargetView {
        TargetView {
            name: self.name@,
            url: self.url@,
            headers: self.headers.deep_view(),
            cron: self.cron@,
            extractor: self.extractor,
            rules: rule_views(self.rules@),
        }
    }
}

/// The index of the first rule at or after `from` whose instruction does
/// not compile for the engine `kind`.
pub open spec fn first_failing(kind: Extractor, rules: Seq<RuleView>, from: int) -> Option<int>
    decreases rules.len() - from,
{
    if from < 0 || from >= rules.len() {
        None
    } else if !compiles(kind, rules[from].extract) {
        Some(from)
    } else {
        first_failing(kind, rules, from + 1)
    }
}

/// Whether two targets have the same configuration: everything but what
/// their rules hold.
pub open spec fn configured_alike(a: TargetView, b: TargetView) -> bool {
    &&& a.name == b.name
    &&& a.url == b.url
    &&& a.headers == b.headers
    &&& a.cron == b.cron
    &&& a.extractor == b.extractor
    &&& a.rules.len() == b.rules.len()
    &&& forall|i: int|
        0 <= i < a.rules.len() ==> (#[trigger] a.rules[i]).name == b.rules[i].name
            && a.rules[i].extract == b.rules[i].extract
}

impl Target {
    /// The rules, as they stand.
    pub closed spec fn rule_list(&self) -> Seq<Rule> {
        self.rules@
    }

    /// Whether every rule holds the compiled form of its instruction for
    /// the engine of this target.
    pub open spec fn is_set_up(&self) -> bool {
        forall|i: int|
            0 <= i < self.rule_list().len() ==> (#[trigger] self.rule_list()[i]).ready(
                self@.extractor,
            )
    }

    /// A target whose rules are not compiled yet.
    pub fn new(
        name: &str,
        url: &str,
        headers: Vec<(String, String)>,
        cron: &str,
        extractor: Extractor,
        rules: Vec<Rule>,
    ) -> (target: Target)
        ensures
            target@ == (TargetView {
                name: name@,
                url: url@,
                headers: headers.deep_view(),
                cron: cron@,
                extractor,
                rules: rule_views(rules@),
            }),
            target.rule_list() == rules@,
    {
        Target {
            name: name.to_owned(),
            url: url.to_owned(),
            headers,
            cron: cron.to_owned(),
            extractor,
            rules,
        }
    }

    /// The name of the target.
    pub fn name(&self) -> (name: &str)
        ensures
            name@ == self@.name,
    {
        self.name.as_str()
    }

    /// The URL that is fetched.
    pub fn url(&self) -> (url: &str)
        ensures
            url@ == self@.url,
    {
        self.url.as_str()
    }

    /// The headers that the configuration gives for the request.
    pub fn headers(&self) -> (headers: &Vec<(String, String)>)
        ensures
            headers.deep_view() == self@.headers,
    {
        &self.headers
    }

    /// When the target is scraped; the library does not read it.
    pub fn cron(&self) -> (cron: &str)
        ensures
            cron@ == self@.cron,
    {
        self.cron.as_str()
    }

    /// The engine that processes the responses of this target.
    pub fn extractor(&self) -> (kind: Extractor)
        ensures
            kind == self@.extractor,
    {
        self.extractor
    }

    /// The rules, in the order of the configuration.
    pub fn rules(&self) -> (rules: &Vec<Rule>)
        ensures
            rules@ == self.rule_list(),
            rule_views(rules@) == self@.rules,
    {
        &self.rules
    }

    /// Compiles the instruction of every rule for the engine of the
    /// target. Stops at the first one that does not compile.
    pub fn setup(&mut self) -> (out: Result<(), CompileError>)
        ensures
            final(self)@ == old(self)@,
            out is Ok <==> first_failing(old(self)@.extractor, old(self)@.rules, 0) is None,
            out is Ok ==> final(self).is_set_up(),
            out matches Err(e) ==> first_failing(old(self)@.extractor, old(self)@.rules, 0)
                matches Some(i) && e.instruction@ == old(self)@.rules[i].extract && (forall|k: int|
                0 <= k < i ==> (#[trigger] final(self).rule_list()[k]).ready(old(self)@.extractor)) && (
            forall|k: int|
                i <= k < old(self).rule_list().len() ==> (#[trigger] final(self).rule_list()[k])
                    == old(self).rule_list()[k]),
            final(self).rule_list().len() == old(self).rule_list().len(),
    {
        let kind = self.extractor;
        let mut i: usize = 0;
        while i < self.rules.len()
            invariant
                i <= self.rules.len(),
                self@ == old(self)@,
                kind == self@.extractor,
                first_failing(kind, self@.rules, 0) == first_failing(kind, self@.rules, i as int),
                forall|k: int| 0 <= k < i ==> (#[trigger] self.rule_list()[k]).ready(kind),
                self.rule_list().len() == old(self).rule_list().len(),
                forall|k: int|
                    i <= k < self.rule_list().len() ==> (#[trigger] self.rule_list()[k]) == old(
                        self,
                    ).rule_list()[k],
            decreases self.rules.len() - i,
        {
            let ghost before = self.rules@;
            let ghost views = self@.rules;
            assert(views[i as int] == before[i as int]@);
            assert(before == self.rule_list());
            assert(forall|k: int| 0 <= k < i ==> (#[trigger] before[k]).ready(kind));
            let rule = &mut self.rules[i];
            let done = rule.prepare(kind);
            assert(forall|k: int| 0 <= k < before.len() && k != i ==> self.rules@[k] == before[k]);
            assert(rule_views(self.rules@) =~= views);
            match done {
                Ok(()) => {},
                Err(e) => {
                    proof {
                        assert(first_failing(kind, views, 0) == Some(i as int));
                        assert forall|k: int| 0 <= k < i implies (#[trigger] self.rule_list()[k]).ready(
                            kind,
                        ) by {
                            assert(before[k].ready(kind));
                            assert(self.rules@[k] == before[k]);
                        }
                        assert forall|k: int| i <= k < before.len() implies (
                        #[trigger] self.rule_list()[k]) == old(self).rule_list()[k] by {
                            if k != i {
                                assert(self.rules@[k] == before[k]);
                            }
                        }
                    }
                    return Err(e);
                },
            }
            assert forall|k: int| 0 <= k < i + 1 implies (#[trigger] self.rule_list()[k]).ready(
                kind,
            ) by {
                if k < i {
                    assert(before[k].ready(kind));
                    assert(self.rules@[k] == before[k]);
                }
            }
            i += 1;
        }
        Ok(())
    }

    /// What every rule finds in the text of a response, each for itself:
    /// the outcome of one rule does not depend on that of another.
    /// `queried[i]` is what the run of the query of the rule at index `i`
    /// gave. Nothing is stored.
    pub fn findings(&self, text: &str, queried: &Vec<Queried>) -> (out: Vec<
        Result<Vec<Finding>, RuleError>,
    >)
        ensures
            out.len() == self.rule_list().len(),
            forall|i: int|
                0 <= i < out.len() ==> findings_view(#[trigger] out[i]) == rule_findings(
                    self.rule_list()[i],
                    text@,
                    queried_at(queried@, i),
                ),
    {
        let not_run = Queried::NotRun;
        let mut out: Vec<Result<Vec<Finding>, RuleError>> = Vec::new();
        let mut i: usize = 0;
        while i < self.rules.len()
            invariant
                i <= self.rules.len(),
                out.len() == i,
                not_run == Queried::NotRun,
                forall|k: int|
                    0 <= k < i ==> findings_view(#[trigger] out[k]) == rule_findings(
                        self.rule_list()[k],
                        text@,
                        queried_at(queried@, k),
                    ),
            decreases self.rules.len() - i,
        {
            let given = if i < queried.len() {
                &queried[i]
            } else {
                &not_run
            };
            let found = self.rules[i].findings(text, given);
            out.push(found);
            i += 1;
        }
        out
    }

    /// Measures every rule on the text of a response, each for itself.
    /// `queried[i]` is what the run of the query of the rule at index `i`
    /// gave. Nothing is stored: the result is for [`Target::store`].
    pub fn measure<F: Fn(&Finding) -> Option<Sample>>(
        &self,
        text: &str,
        queried: &Vec<Queried>,
        read: &F,
        now: u128,
    ) -> (out: Vec<Result<Metrics, RuleError>>)
        requires
            forall|f: &Finding| call_requires(*read, (f,)),
        ensures
            out.len() == self.rule_list().len(),
            forall|i: int|
                0 <= i < out.len() ==> rule_measured(
                    self.rule_list()[i],
                    text@,
                    queried_at(queried@, i),
                    *read,
                    now,
                    #[trigger] out[i],
                ),
    {
        let not_run = Queried::NotRun;
        let mut out: Vec<Result<Metrics, RuleError>> = Vec::new();
        let mut i: usize = 0;
        while i < self.rules.len()
            invariant
                i <= self.rules.len(),
                out.len() == i,
                not_run == Queried::NotRun,
                forall|f: &Finding| call_requires(*read, (f,)),
                forall|k: int|
                    0 <= k < i ==> rule_measured(
                        self.rule_list()[k],
                        text@,
                        queried_at(queried@, k),
                        *read,
                        now,
                        #[trigger] out[k],
                    ),
            decreases self.rules.len() - i,
        {
            let given = if i < queried.len() {
                &queried[i]
            } else {
                &not_run
            };
            let result = self.rules[i].measure(text, given, read, now);
            out.push(result);
            i += 1;
        }
        out
    }

    /// Hands the results of a scrape to the rules, `results[i]` to the rule
    /// at index `i`, and returns what each rule reports. A rule for which
    /// there is no result holds what it held and reports nothing; a result
    /// for which there is no rule is dropped.
    pub fn store(&mut self, results: Vec<Result<Metrics, RuleError>>) -> (reports: Vec<Option<RuleError>>)
        ensures
            configured_alike(old(self)@, final(self)@),
            final(self).rule_list().len() == old(self).rule_list().len(),
            reports.len() == old(self).rule_list().len(),
            final(self).is_set_up() == old(self).is_set_up(),
            forall|i: int|
                0 <= i < reports.len() ==> rule_took(
                    old(self).rule_list()[i],
                    final(self).rule_list()[i],
                    results@,
                    i,
                    #[trigger] reports[i],
                ),
    {
        let mut results = results;
        let ghost given = results@;
        let ghost kind = self@.extractor;
        let mut reports: Vec<Option<RuleError>> = Vec::new();
        let mut i: usize = 0;
        while i < self.rules.len()
            invariant
                i <= self.rules.len(),
                reports.len() == i,
                results.len() == given.len(),
                kind == self@.extractor,
                configured_alike(old(self)@, self@),
                self.rule_list().len() == old(self).rule_list().len(),
                forall|k: int| i <= k < given.len() ==> results@[k] == given[k],
                forall|k: int|
                    i <= k < self.rule_list().len() ==> self.rule_list()[k] == old(
                        self,
                    ).rule_list()[k],
                forall|k: int|
                    0 <= k < i ==> rule_took(
                        old(self).rule_list()[k],
                        self.rule_list()[k],
                        given,
                        k,
                        #[trigger] reports[k],
                    ),
            decreases self.rules.len() - i,
        {
            let ghost before = self.rules@;
            let ghost told = reports@;
            assert(before == self.rule_list());
            assert forall|k: int| 0 <= k < i implies rule_took(
                old(self).rule_list()[k],
                before[k],
                given,
                k,
                #[trigger] told[k],
            ) by {
                assert(rule_took(
                    old(self).rule_list()[k],
                    self.rule_list()[k],
                    given,
                    k,
                    reports[k],
                ));
            }
            if i < results.len() {
                let mut result: Result<Metrics, RuleError> = Err(RuleError::NotCompiled);
                let ghost left = results@;
                let slot = &mut results[i];
                core::mem::swap(slot, &mut result);
                assert(forall|k: int| 0 <= k < left.len() && k != i ==> results@[k] == left[k]);
                let rule = &mut self.rules[i];
                let report = rule.store(result);
                reports.push(report);
            } else {
                reports.push(None);
            }
            assert(forall|k: int| 0 <= k < before.len() && k != i ==> self.rules@[k] == before[k]);
            assert(rule_took(
                old(self).rule_list()[i as int],
                self.rule_list()[i as int],
                given,
                i as int,
                reports[i as int],
            ));
            assert forall|k: int| 0 <= k < i + 1 implies rule_took(
                old(self).rule_list()[k],
                self.rule_list()[k],
                given,
                k,
                #[trigger] reports[k],
            ) by {
                if k < i {
                    assert(reports[k] == told[k]);
                    assert(self.rules@[k] == before[k]);
                    assert(rule_took(old(self).rule_list()[k], before[k], given, k, told[k]));
                }
            }
            i += 1;
        }
        proof {
            let first = old(self).rule_list();
            assert forall|k: int| 0 <= k < first.len() implies (#[trigger] self.rule_list()[k]).ready(
                kind,
            ) == first[k].ready(kind) by {
                assert(rule_took(first[k], self.rule_list()[k], given, k, reports[k]));
            }
            if old(self).is_set_up() {
                assert forall|k: int| 0 <= k < self.rule_list().len() implies (
                #[trigger] self.rule_list()[k]).ready(kind) by {
                    assert(first[k].ready(kind));
                }
            }
            if self.is_set_up() {
                assert forall|k: int| 0 <= k < first.len() implies (#[trigger] first[k]).ready(
                    kind,
                ) by {
                    assert(self.rule_list()[k].ready(kind));
                }
            }
        }
        reports
    }

    /// Scrapes every rule on the text of a response, each for itself: a
    /// rule that fails is reported at its index and holds what it held,
    /// and the other rules are not affected. `queried[i]` is what the run
    /// of the query of the rule at index `i` gave; `read` reads the number
    /// of a finding; `now` is the time of the scrape in milliseconds since
    /// the epoch.
    pub fn extract<F: Fn(&Finding) -> Option<Sample>>(
        &mut self,
        text: &str,
        queried: &Vec<Queried>,
        read: &F,
        now: u128,
    ) -> (reports: Vec<Option<RuleError>>)
        requires
            forall|f: &Finding| call_requires(*read, (f,)),
        ensures
            configured_alike(old(self)@, final(self)@),
            reports.len() == old(self).rule_list().len(),
            final(self).rule_list().len() == old(self).rule_list().len(),
            final(self).is_set_up() == old(self).is_set_up(),
            forall|i: int|
                0 <= i < reports.len() ==> rule_scraped(
                    old(self).rule_list()[i],
                    final(self).rule_list()[i],
                    text@,
                    queried_at(queried@, i),
                    *read,
                    now,
                    #[trigger] reports[i],
                ),
    {
        let results = self.measure(text, queried, read, now);
        let ghost given = results@;
        let reports = self.store(results);
        assert forall|i: int| 0 <= i < reports.len() implies rule_scraped(
            old(self).rule_list()[i],
            self.rule_list()[i],
            text@,
            queried_at(queried@, i),
            *read,
            now,
            #[trigger] reports[i],
        ) by {
            let before = old(self).rule_list()[i];
            assert(rule_measured(before, text@, queried_at(queried@, i), *read, now, given[i]));
            assert(rule_took(before, self.rule_list()[i], given, i, reports[i]));
            assert((self.rule_list()[i]@, reports[i]) == rule_stored(
                before@,
                series_view(given[i]),
            ));
        }
        reports
    }
}

/// What the run of the query of the rule at index `i` gave: `queried[i]`,
/// and no run where the list is shorter.
pub open spec fn queried_at(queried: Seq<Queried>, i: int) -> Queried {
    if 0 <= i < queried.len() {
        queried[i]
    } else {
        Queried::NotRun
    }
}

/// Whether `after` and `report` are what the rule `before` at index `i`
/// holds and reports once `results` were handed to the rules of its target.
pub open spec fn rule_took(
    before: Rule,
    after: Rule,
    results: Seq<Result<Metrics, RuleError>>,
    i: int,
    report: Option<RuleError>,
) -> bool {
    &&& after.compiled() == before.compiled()
    &&& (after@, report) == stored_at(before@, results, i)
}

/// What the rule at index `i` holds and reports once `results` were handed
/// to the rules of its target.
pub open spec fn stored_at(before: RuleView, results: Seq<Result<Metrics, RuleError>>, i: int) -> (
    RuleView,
    Option<RuleError>,
) {
    if 0 <= i < results.len() {
        rule_stored(before, series_view(results[i]))
    } else {
        (before, None)
    }
}

/// The contents of a list of targets.
pub open spec fn target_views(targets: Seq<Target>) -> Seq<TargetView> {
    Seq::new(targets.len(), |i: int| targets[i]@)
}

/// Whether a target may have the name `name`: it is not empty and holds no
/// line feed, since the exposition writes it as it is.
pub open spec fn valid_name(name: Seq<char>) -> bool {
    name.len() > 0 && forall|i: int| 0 <= i < name.len() ==> name[i] != '\n'
}

/// Whether every target has a valid name and no two targets have the same.
pub open spec fn valid_names(targets: Seq<TargetView>) -> bool {
    &&& forall|i: int| 0 <= i < targets.len() ==> valid_name((#[trigger] targets[i]).name)
    &&& forall|i: int, j: int|
        0 <= i < j < targets.len() ==> (#[trigger] targets[i]).name != (#[trigger] targets[j]).name
}

fn name_is_valid(name: &str) -> (ok: bool)
    ensures
        ok == valid_name(name@),
{
    let chars = chars_of(name);
    if chars.len() == 0 {
        return false;
    }
    let mut i: usize = 0;
    while i < chars.len()
        invariant
            i <= chars.len(),
            chars@ == name@,
            forall|k: int| 0 <= k < i ==> chars@[k] != '\n',
        decreases chars.len() - i,
    {
        if chars[i] == '\n' {
            return false;
        }
        i += 1;
    }
    true
}

/// Checks the names of the targets of a configuration: each one not empty
/// and without a line feed, and no two the same.
pub fn names_are_valid(targets: &Vec<Target>) -> (ok: bool)
    ensures
        ok == valid_names(target_views(targets@)),
{
    let ghost views = target_views(targets@);
    let mut i: usize = 0;
    while i < targets.len()
        invariant
            i <= targets.len(),
            views == target_views(targets@),
            forall|k: int| 0 <= k < i ==> valid_name((#[trigger] views[k]).name),
            forall|a: int, b: int|
                0 <= a < b < i ==> (#[trigger] views[a]).name != (#[trigger] views[b]).name,
        decreases targets.len() - i,
    {
        let name = targets[i].name();
        assert(name@ == views[i as int].name);
        if !name_is_valid(name) {
            return false;
        }
        let mut j: usize = 0;
        while j < i
            invariant
                j <= i < targets.len(),
                views == target_views(targets@),
                name@ == views[i as int].name,
                forall|k: int| 0 <= k < j ==> (#[trigger] views[k]).name != name@,
            decreases i - j,
        {
            let other = targets[j].name();
            assert(other@ == views[j as int].name);
            if same_text(other, name) {
                return false;
            }
            j += 1;
        }
        i += 1;
    }
    true
}

} // verus!

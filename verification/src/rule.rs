//! A rule: one named extraction instruction, with the series that its
//! latest productive scrape gave.

use crate::extractor::{
    compile, compiles, extract, extraction, CompileError, CompiledExtractor, Extractor,
};
use crate::finding::{findings_view, Finding, FindingView, RuleError};
use crate::query::{Queried, Query};
use crate::measure::{measurement, metrics_of_findings, series_view};
use crate::metric::{MetricView, Sample};
use crate::series::Metrics;
use vstd::prelude::*;

verus! {

/// One named extraction instruction of a target, with the series that its
/// latest productive scrape gave.
pub struct Rule {
    name: String,
    extract: String,
    compiled: Option<CompiledExtractor>,
    results: Metrics,
}

/// The mathematical content of a [`Rule`].
pub struct RuleView {
    pub name: Seq<char>,
    pub extract: Seq<char>,
    pub results: Seq<MetricView>,
}

impl View for Rule {
    type V = RuleView;

    closed spec fn view(&self) -> RuleView {
        RuleView { name: self.name@, extract: self.extract@, results: self.results@ }
    }
}

/// What a rule holds after a scrape gave `metrics`: these, if there are
/// any, and what it held before otherwise.
pub open spec fn committed(before: Seq<MetricView>, metrics: Seq<MetricView>) -> Seq<MetricView> {
    if metrics.len() > 0 {
        metrics
    } else {
        before
    }
}

/// A scrape that gives nothing leaves what a rule holds, and a later scrape
/// that gives something replaces all of it: a series that the later scrape
/// did not give is gone.
pub proof fn lemma_commit_keeps_then_replaces(
    before: Seq<MetricView>,
    nothing: Seq<MetricView>,
    next: Seq<MetricView>,
)
    requires
        nothing.len() == 0,
        next.len() > 0,
    ensures
        committed(before, nothing) == before,
        committed(committed(before, nothing), next) == next,
        forall|m: MetricView|
            !next.contains(m) ==> !(#[trigger] committed(committed(before, nothing), next).contains(
                m,
            )),
{
}

/// The same for a rule as a whole: a scrape that gives nothing and a scrape
/// that fails both leave the rule as it was and a later scrape that gives
/// something puts exactly that in the place of what the rule held.
pub proof fn lemma_rule_keeps_then_replaces(
    rule: RuleView,
    error: RuleError,
    nothing: Seq<MetricView>,
    next: Seq<MetricView>,
)
    requires
        nothing.len() == 0,
        next.len() > 0,
    ensures
        rule_stored(rule, Ok(nothing)) == (rule, None::<RuleError>),
        rule_stored(rule, Err(error)) == (rule, Some(error)),
        rule_stored(rule_stored(rule, Ok(nothing)).0, Ok(next)).0 == (RuleView {
            results: next,
            ..rule
        }),
{
}

impl Rule {
    /// The compiled form of the instruction, once the rule was prepared.
    pub closed spec fn compiled(&self) -> Option<CompiledExtractor> {
        self.compiled
    }

    /// Whether the rule holds the compiled form of its instruction for the
    /// engine `kind`.
    pub open spec fn ready(&self, kind: Extractor) -> bool {
        self.compiled() matches Some(c) && c.kind() == kind && c.built_from(self@.extract)
    }

    /// A rule that has not been compiled and holds no results.
    pub fn new(name: &str, extract: &str) -> (rule: Rule)
        ensures
            rule@ == (RuleView { name: name@, extract: extract@, results: Seq::empty() }),
            rule.compiled() is None,
    {
        Rule {
            name: name.to_owned(),
            extract: extract.to_owned(),
            compiled: None,
            results: Metrics::new(),
        }
    }

    /// The name of the rule, and of every metric that it gives.
    pub fn name(&self) -> (name: &str)
        ensures
            name@ == self@.name,
    {
        self.name.as_str()
    }

    /// The instruction for the extractor: a jq program or a regular
    /// expression.
    pub fn instruction(&self) -> (extract: &str)
        ensures
            extract@ == self@.extract,
    {
        self.extract.as_str()
    }

    /// The series that the latest productive scrape gave.
    pub fn results(&self) -> (results: &Metrics)
        ensures
            results@ == self@.results,
    {
        &self.results
    }

    /// Whether the rule holds a compiled form of its instruction.
    pub fn is_compiled(&self) -> (yes: bool)
        ensures
            yes == self.compiled() is Some,
    {
        self.compiled.is_some()
    }

    /// Compiles the instruction for the engine `kind` and keeps the
    /// compiled form. A rule whose instruction does not compile is left as
    /// it was.
    pub fn prepare(&mut self, kind: Extractor) -> (out: Result<(), CompileError>)
        ensures
            final(self)@ == old(self)@,
            out is Ok <==> compiles(kind, old(self)@.extract),
            out is Ok ==> final(self).ready(kind),
            out is Err ==> *final(self) == *old(self),
            out matches Err(e) ==> e.instruction@ == old(self)@.extract,
    {
        match compile(self.extract.as_str(), kind) {
            Ok(compiled) => {
                self.compiled = Some(compiled);
                Ok(())
            },
            Err(e) => Err(e),
        }
    }

    /// The compiled query of the rule, for the one who runs it; `None` for
    /// a rule that was not compiled and for one that holds a pattern.
    pub fn query(&self) -> (query: Option<&Query>)
        ensures
            match query {
                Some(q) => self.compiled() == Some(CompiledExtractor::Query(*q)),
                None => !(self.compiled() matches Some(CompiledExtractor::Query(_))),
            },
    {
        match &self.compiled {
            Some(CompiledExtractor::Query(q)) => Some(q),
            _ => None,
        }
    }

    /// What the rule finds in the text of a response: by its pattern, or in
    /// what the run of its query gave. A failure concerns this rule alone.
    pub fn findings(&self, text: &str, queried: &Queried) -> (out: Result<Vec<Finding>, RuleError>)
        ensures
            findings_view(out) == rule_findings(*self, text@, *queried),
    {
        match &self.compiled {
            Some(compiled) => extract(compiled, text, queried),
            None => Err(RuleError::NotCompiled),
        }
    }

    /// Finds what the rule finds, asks `read` for the number of each
    /// finding and builds the series. Nothing is stored.
    pub fn measure<F: Fn(&Finding) -> Option<Sample>>(
        &self,
        text: &str,
        queried: &Queried,
        read: &F,
        now: u128,
    ) -> (out: Result<Metrics, RuleError>)
        requires
            forall|f: &Finding| call_requires(*read, (f,)),
        ensures
            rule_measured(*self, text@, *queried, *read, now, out),
    {
        match self.findings(text, queried) {
            Err(e) => Err(e),
            Ok(found) => {
                let samples = read_samples(&found, read);
                assert(samples.deep_view() =~= sample_views(samples@));
                let out = metrics_of_findings(self.name.as_str(), &found, &samples, now);
                assert(rule_measured_with(*self, text@, *queried, *read, now, out, found, samples@));
                out
            },
        }
    }

    /// Takes the result of a scrape: a failure is handed back and leaves
    /// what the rule held; series replace it if there is at least one.
    pub fn store(&mut self, result: Result<Metrics, RuleError>) -> (report: Option<RuleError>)
        ensures
            final(self).compiled() == old(self).compiled(),
            (final(self)@, report) == rule_stored(old(self)@, series_view(result)),
    {
        match result {
            Err(e) => Some(e),
            Ok(series) => {
                self.commit(series);
                None
            },
        }
    }

    /// Takes the series of a scrape: they replace what the rule held if
    /// there is at least one, and are dropped otherwise. Returns whether
    /// they replaced it.
    pub fn commit(&mut self, metrics: Metrics) -> (replaced: bool)
        ensures
            replaced == (metrics@.len() > 0),
            final(self)@ == (RuleView {
                results: committed(old(self)@.results, metrics@),
                ..old(self)@
            }),
            final(self).compiled() == old(self).compiled(),
    {
        if metrics.is_empty() {
            false
        } else {
            self.results = metrics;
            true
        }
    }
}

/// Whether `samples` holds, for each finding in turn, what `read` may return
/// for it.
pub open spec fn samples_read<F: Fn(&Finding) -> Option<Sample>>(
    read: F,
    findings: Seq<Finding>,
    samples: Seq<Option<Sample>>,
) -> bool {
    &&& samples.len() == findings.len()
    &&& forall|k: int|
        0 <= k < findings.len() ==> call_ensures(read, (&findings[k],), #[trigger] samples[k])
}

/// The contents of a list of samples.
pub open spec fn sample_views(samples: Seq<Option<Sample>>) -> Seq<Option<Seq<char>>> {
    Seq::new(samples.len(), |i: int| samples[i].deep_view())
}

/// What a rule finds in `text`: an error if the rule was not compiled, and
/// what its compiled form gives otherwise.
pub open spec fn rule_findings(rule: Rule, text: Seq<char>, queried: Queried) -> Result<
    Seq<FindingView>,
    RuleError,
> {
    match rule.compiled() {
        Some(compiled) => extraction(compiled, text, queried),
        None => Err(RuleError::NotCompiled),
    }
}

/// Whether `out` is the series of `rule`, given that `found` is what the
/// rule found and `samples` is what `read` returned for each finding.
pub open spec fn rule_measured_with<F: Fn(&Finding) -> Option<Sample>>(
    rule: Rule,
    text: Seq<char>,
    queried: Queried,
    read: F,
    now: u128,
    out: Result<Metrics, RuleError>,
    found: Vec<Finding>,
    samples: Seq<Option<Sample>>,
) -> bool {
    &&& rule_findings(rule, text, queried) == Ok::<Seq<FindingView>, RuleError>(found.deep_view())
    &&& samples_read(read, found@, samples)
    &&& series_view(out) == measurement(rule@.name, found.deep_view(), sample_views(samples), now)
}

/// Whether `out` is what one scrape gives for `rule`: the error of the rule
/// if it has one, and otherwise what [`measurement`] makes of its findings
/// and of the samples that `read` returned for them.
pub open spec fn rule_measured<F: Fn(&Finding) -> Option<Sample>>(
    rule: Rule,
    text: Seq<char>,
    queried: Queried,
    read: F,
    now: u128,
    out: Result<Metrics, RuleError>,
) -> bool {
    match rule_findings(rule, text, queried) {
        Err(e) => series_view(out) == Err::<Seq<MetricView>, RuleError>(e),
        Ok(_) => exists|found: Vec<Finding>, samples: Seq<Option<Sample>>| #[trigger]
            rule_measured_with(rule, text, queried, read, now, out, found, samples),
    }
}

/// What a rule holds and reports once the result of a scrape was handed to
/// it.
///
/// - A failure is reported and leaves what the rule held.
/// - Series replace what the rule held if there is at least one, and are
///   dropped if there is none; nothing is reported.
pub open spec fn rule_stored(before: RuleView, result: Result<Seq<MetricView>, RuleError>) -> (
    RuleView,
    Option<RuleError>,
) {
    match result {
        Err(e) => (before, Some(e)),
        Ok(series) => (RuleView { results: committed(before.results, series), ..before }, None),
    }
}

/// Whether `after` and `report` are what one scrape of `text` makes of the
/// rule `before`.
pub open spec fn rule_scraped<F: Fn(&Finding) -> Option<Sample>>(
    before: Rule,
    after: Rule,
    text: Seq<char>,
    queried: Queried,
    read: F,
    now: u128,
    report: Option<RuleError>,
) -> bool {
    &&& after.compiled() == before.compiled()
    &&& exists|out: Result<Metrics, RuleError>|
        rule_measured(before, text, queried, read, now, out) && (after@, report)
            == #[trigger] rule_stored(
            before@,
            series_view(out),
        )
}

/// Asks `read` for the number of each finding.
pub fn read_samples<F: Fn(&Finding) -> Option<Sample>>(findings: &Vec<Finding>, read: &F) -> (samples:
    Vec<Option<Sample>>)
    requires
        forall|f: &Finding| call_requires(*read, (f,)),
    ensures
        samples_read(*read, findings@, samples@),
{
    let mut samples: Vec<Option<Sample>> = Vec::new();
    let mut i: usize = 0;
    while i < findings.len()
        invariant
            i <= findings.len(),
            samples.len() == i,
            forall|f: &Finding| call_requires(*read, (f,)),
            forall|k: int|
                0 <= k < i ==> call_ensures(*read, (&findings@[k],), #[trigger] samples@[k]),
        decreases findings.len() - i,
    {
        let sample = read(&findings[i]);
        samples.push(sample);
        i += 1;
    }
    samples
}

} // verus!

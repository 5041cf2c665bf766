//! From findings to metrics: each finding, once its number has been read,
//! becomes a metric of the rule.

use crate::finding::{Finding, FindingView, RuleError};
use crate::metric::{labelled, Metric, MetricView, Sample};
use crate::sanitize::sanitized;
use crate::series::{stored, Metrics};
use vstd::prelude::*;

verus! {

/// The labels of a metric after the first `upto` labels of a finding were
/// set on it, one after the other.
pub open spec fn labels_set(raw: Seq<(Seq<char>, Seq<char>)>, upto: int) -> Seq<
    (Seq<char>, Seq<char>),
>
    decreases upto,
{
    if upto <= 0 {
        Seq::empty()
    } else {
        labelled(
            labels_set(raw, upto - 1),
            sanitized(raw[upto - 1].0),
            sanitized(raw[upto - 1].1),
        )
    }
}

/// The metric that a finding becomes: named after the rule, with the sample
/// that was read from it and the labels that it was found with.
pub open spec fn metric_of(
    name: Seq<char>,
    finding: FindingView,
    sample: Seq<char>,
    timestamp: u128,
) -> MetricView {
    MetricView {
        name,
        value: sample,
        timestamp: Some(timestamp),
        labels: labels_set(finding.labels, finding.labels.len() as int),
    }
}

/// Whether there is one sample for each finding and every reading was a
/// number.
pub open spec fn all_read(findings: Seq<FindingView>, samples: Seq<Option<Seq<char>>>) -> bool {
    &&& samples.len() == findings.len()
    &&& forall|i: int| 0 <= i < samples.len() ==> (#[trigger] samples[i]) is Some
}

/// The series that the first `upto` findings give, each stored in turn.
pub open spec fn measured(
    name: Seq<char>,
    findings: Seq<FindingView>,
    samples: Seq<Option<Seq<char>>>,
    timestamp: u128,
    upto: int,
) -> Seq<MetricView>
    decreases upto,
{
    if upto <= 0 {
        Seq::empty()
    } else {
        stored(
            measured(name, findings, samples, timestamp, upto - 1),
            metric_of(name, findings[upto - 1], samples[upto - 1]->0, timestamp),
        )
    }
}

/// What the findings of a rule become, given what was read from each:
/// an error if a reading was no number or a sample is missing, the series
/// otherwise.
pub open spec fn measurement(
    name: Seq<char>,
    findings: Seq<FindingView>,
    samples: Seq<Option<Seq<char>>>,
    timestamp: u128,
) -> Result<Seq<MetricView>, RuleError> {
    if all_read(findings, samples) {
        Ok(measured(name, findings, samples, timestamp, findings.len() as int))
    } else {
        Err(RuleError::NotNumeric)
    }
}

/// The series of a `Result`, as their mathematical content.
pub open spec fn series_view(out: Result<Metrics, RuleError>) -> Result<Seq<MetricView>, RuleError> {
    match out {
        Ok(series) => Ok(series@),
        Err(e) => Err(e),
    }
}

/// Builds the metric of one finding.
pub fn metric_of_finding(name: &str, finding: &Finding, sample: Sample, timestamp: u128) -> (metric:
    Metric)
    ensures
        metric.deep_view() == metric_of(name@, finding.deep_view(), sample.deep_view(), timestamp),
{
    let mut metric = Metric::new(name, sample, timestamp);
    let mut i: usize = 0;
    while i < finding.labels.len()
        invariant
            i <= finding.labels.len(),
            metric.deep_view() == (MetricView {
                name: name@,
                value: sample.deep_view(),
                timestamp: Some(timestamp),
                labels: labels_set(finding.deep_view().labels, i as int),
            }),
        decreases finding.labels.len() - i,
    {
        assert(finding.deep_view().labels[i as int] == (
            finding.labels@[i as int].key@,
            finding.labels@[i as int].value@,
        ));
        metric = metric.with_label(finding.labels[i].key.as_str(), finding.labels[i].value.as_str());
        i += 1;
    }
    metric
}

/// Builds the series of a rule from its findings and from what was read
/// from each: `samples[i]` is the number that `findings[i].reading` is, or
/// `None` if it is no number.
pub fn metrics_of_findings(
    name: &str,
    findings: &Vec<Finding>,
    samples: &Vec<Option<Sample>>,
    timestamp: u128,
) -> (out: Result<Metrics, RuleError>)
    ensures
        series_view(out) == measurement(
            name@,
            findings.deep_view(),
            samples.deep_view(),
            timestamp,
        ),
{
    if samples.len() != findings.len() {
        return Err(RuleError::NotNumeric);
    }
    let mut series = Metrics::new();
    let mut i: usize = 0;
    while i < findings.len()
        invariant
            i <= findings.len(),
            samples.len() == findings.len(),
            forall|k: int| 0 <= k < i ==> (#[trigger] samples.deep_view()[k]) is Some,
            series@ == measured(
                name@,
                findings.deep_view(),
                samples.deep_view(),
                timestamp,
                i as int,
            ),
        decreases findings.len() - i,
    {
        assert(samples.deep_view()[i as int] == samples@[i as int].deep_view());
        match &samples[i] {
            Some(sample) => {
                let metric = metric_of_finding(name, &findings[i], sample.duplicate(), timestamp);
                metric.insert(&mut series);
            },
            None => {
                return Err(RuleError::NotNumeric);
            },
        }
        i += 1;
    }
    Ok(series)
}

} // verus!

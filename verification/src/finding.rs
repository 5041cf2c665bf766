//! What an extraction yields before its number has been read: the text of
//! the number and the labels that go with it.

use crate::text::push_text;
use vstd::prelude::*;

verus! {

/// A label as it was found: a key and a value, not yet filtered.
#[derive(Debug, Clone, PartialEq, Eq)]
pub struct Label {
    pub key: String,
    pub value: String,
}

impl DeepView for Label {
    type V = (Seq<char>, Seq<char>);

    open spec fn deep_view(&self) -> (Seq<char>, Seq<char>) {
        (self.key@, self.value@)
    }
}

/// One measurement as it was found in a response: the text that has to be
/// read as a number, and the labels in the order in which they were found.
#[derive(Debug, Clone, PartialEq, Eq)]
pub struct Finding {
    pub reading: String,
    pub labels: Vec<Label>,
}

/// The mathematical content of a [`Finding`].
pub struct FindingView {
    pub reading: Seq<char>,
    pub labels: Seq<(Seq<char>, Seq<char>)>,
}

impl DeepView for Finding {
    type V = FindingView;

    open spec fn deep_view(&self) -> FindingView {
        FindingView { reading: self.reading@, labels: self.labels.deep_view() }
    }
}

/// A finding without labels.
pub open spec fn bare(reading: Seq<char>) -> FindingView {
    FindingView { reading, labels: Seq::empty() }
}

/// Why one rule contributed nothing to a scrape. The other rules of the
/// target are not affected.
#[derive(Debug, Clone, PartialEq, Eq)]
pub enum RuleError {
    /// The rule has no compiled extractor: the target was not set up.
    NotCompiled,
    /// The rule has a query, and no run of it was handed in.
    NotQueried,
    /// The query could not be evaluated on the response; the text says why.
    Query(String),
    /// The pattern did not match the response.
    NoMatch,
    /// The pattern has a group named `value`, and it took no part in the
    /// match.
    MissingValue,
    /// A text that had to be a number is none.
    NotNumeric,
}

/// What an error of a rule says in words.
pub open spec fn described_rule_error(error: RuleError) -> Seq<char> {
    match error {
        RuleError::NotCompiled => "The rule was not set up"@,
        RuleError::NotQueried => "The query of the rule was not run"@,
        RuleError::Query(why) => "JQ Error: "@ + why@,
        RuleError::NoMatch => "Regex didn't match anything"@,
        RuleError::MissingValue => "Named group 'value' exists, but didn't match anything"@,
        RuleError::NotNumeric => "The result could not be parsed as a number"@,
    }
}

impl RuleError {
    /// The error in words.
    pub fn describe(&self) -> (words: String)
        ensures
            words@ == described_rule_error(*self),
    {
        match self {
            RuleError::NotCompiled => "The rule was not set up".to_owned(),
            RuleError::NotQueried => "The query of the rule was not run".to_owned(),
            RuleError::Query(why) => {
                let mut words = "JQ Error: ".to_owned();
                push_text(&mut words, why.as_str());
                words
            },
            RuleError::NoMatch => "Regex didn't match anything".to_owned(),
            RuleError::MissingValue => "Named group 'value' exists, but didn't match anything".to_owned(),
            RuleError::NotNumeric => "The result could not be parsed as a number".to_owned(),
        }
    }
}

/// The findings of a `Result`, as their mathematical content.
pub open spec fn findings_view(out: Result<Vec<Finding>, RuleError>) -> Result<
    Seq<FindingView>,
    RuleError,
> {
    match out {
        Ok(found) => Ok(found.deep_view()),
        Err(e) => Err(e),
    }
}

/// What one finding or one error becomes as the outcome of a rule.
pub open spec fn single(found: Result<FindingView, RuleError>) -> Result<Seq<FindingView>, RuleError> {
    match found {
        Ok(f) => Ok(seq![f]),
        Err(e) => Err(e),
    }
}

impl Finding {
    /// A finding without labels.
    pub fn plain(reading: String) -> (found: Finding)
        ensures
            found.deep_view() == bare(reading@),
    {
        let found = Finding { reading, labels: Vec::new() };
        assert(found.labels.deep_view() =~= Seq::empty());
        found
    }
}

} // verus!

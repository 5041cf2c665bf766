//! The structured query: compiling a jq program, and reading what a run of
//! it gave. The run itself is not made here: a program may read the clock
//! and the environment, write to the standard streams, end the process or
//! never come back, so the program around the library runs it and hands in
//! what it gave.

use crate::finding::{findings_view, Finding, FindingView, RuleError};
use crate::json::{findings_of_json, json_findings, Json};
use vstd::prelude::*;

verus! {

/// `jq::JsonFilter`, a compiled jq program. Nothing inside it is read here.
#[verifier::external_type_specification]
#[verifier::external_body]
pub struct ExJsonFilter(jq::JsonFilter);

/// `jq::JsonFilterError`, why a program did not compile. Nothing inside it
/// is read here.
#[verifier::external_type_specification]
#[verifier::external_body]
pub struct ExJsonFilterError(jq::JsonFilterError);

/// A compiled jq program together with the text that it was compiled from.
/// The only way to one is [`compile_query`], so that the filter inside is
/// always the one of the program.
pub struct Query {
    program: String,
    filter: jq::JsonFilter,
}

impl View for Query {
    type V = Seq<char>;

    /// The program.
    closed spec fn view(&self) -> Seq<char> {
        self.program@
    }
}

/// Whether `jq::JsonFilter` accepts `program`.
pub uninterp spec fn query_compiles(program: Seq<char>) -> bool;

/// Compiles `program`.
///
/// Trusted: this is the `FromStr` of `jq::JsonFilter`, which loads and
/// compiles the program against the built-in definitions only and reads no
/// file, so that its success depends on the program alone. The program is
/// kept beside the filter.
#[verifier::external_body]
pub(crate) fn compile_query(program: &str) -> (compiled: Result<Query, jq::JsonFilterError>)
    ensures
        compiled is Ok <==> query_compiles(program@),
        compiled matches Ok(query) ==> query@ == program@,
{
    let filter = program.parse()?;
    Ok(Query { program: String::from(program), filter })
}

/// What a failed compilation says.
///
/// Trusted: this is the `Display` of `jq::JsonFilterError`; nothing is
/// claimed of the text.
#[verifier::external_body]
pub(crate) fn query_error_text(error: &jq::JsonFilterError) -> String {
    error.to_string()
}

impl Query {
    /// The program that was compiled.
    pub fn program(&self) -> (program: &str)
        ensures
            program@ == self@,
    {
        self.program.as_str()
    }

    /// The compiled filter, for the one who runs it.
    pub fn filter(&self) -> &jq::JsonFilter {
        &self.filter
    }
}

/// What a run of the query of a rule on a response gave.
#[derive(Debug, PartialEq, Eq)]
pub enum Queried {
    /// The query was not run: the rule has none, or there was no response
    /// to run it on.
    NotRun,
    /// The run failed; the text says why.
    Failed(String),
    /// The first value that the program produced.
    Value(Json),
}

/// What the run of a query gives a rule: the findings of the value, the
/// error of a failed run, and an error of its own where there was no run.
pub open spec fn queried_findings(queried: Queried) -> Result<Seq<FindingView>, RuleError> {
    match queried {
        Queried::NotRun => Err(RuleError::NotQueried),
        Queried::Failed(why) => Err(RuleError::Query(why)),
        Queried::Value(value) => Ok(json_findings(value)),
    }
}

/// Decides what the run of a query gives a rule.
pub fn findings_of_queried(queried: &Queried) -> (out: Result<Vec<Finding>, RuleError>)
    ensures
        findings_view(out) == queried_findings(*queried),
{
    match queried {
        Queried::NotRun => Err(RuleError::NotQueried),
        Queried::Failed(why) => Err(RuleError::Query(why.clone())),
        Queried::Value(value) => Ok(findings_of_json(value)),
    }
}

} // verus!

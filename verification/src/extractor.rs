//! The two ways of extraction, and the compiled form of a rule's
//! instruction.

use crate::finding::{findings_view, single, Finding, FindingView, RuleError};
use crate::pattern::{
    compile_pattern, extract_pattern, pattern_compiles, pattern_error_text, pattern_finding,
    pattern_groups, pattern_match, Pattern,
};
use crate::query::{
    compile_query, findings_of_queried, queried_findings, query_compiles, query_error_text,
    Queried, Query,
};
use vstd::prelude::*;

verus! {

/// Which engine processes the response.
#[derive(Clone, Copy, Debug, PartialEq, Eq, Structural)]
pub enum Extractor {
    /// A jq program on a JSON document.
    Jq,
    /// A regular expression with capture groups on any text.
    Regex,
}

impl Default for Extractor {
    fn default() -> (kind: Extractor)
        ensures
            kind == Extractor::Jq,
    {
        Extractor::Jq
    }
}

/// The instruction of a rule, compiled once and used for every scrape.
pub enum CompiledExtractor {
    Query(Query),
    Pattern(Pattern),
}

/// An instruction that does not compile. The message comes from the engine.
#[derive(Debug, Clone, PartialEq, Eq)]
pub struct CompileError {
    /// The instruction that does not compile.
    pub instruction: String,
    /// What the engine says of it.
    pub message: String,
}

/// Whether `instruction` compiles for the engine `kind`.
pub open spec fn compiles(kind: Extractor, instruction: Seq<char>) -> bool {
    match kind {
        Extractor::Jq => query_compiles(instruction),
        Extractor::Regex => pattern_compiles(instruction),
    }
}

impl CompiledExtractor {
    /// The engine that runs this compiled form.
    pub open spec fn kind(&self) -> Extractor {
        match self {
            CompiledExtractor::Query(_) => Extractor::Jq,
            CompiledExtractor::Pattern(_) => Extractor::Regex,
        }
    }

    /// Whether this is the compiled form of `instruction`.
    pub open spec fn built_from(&self, instruction: Seq<char>) -> bool {
        match self {
            CompiledExtractor::Query(query) => query@ == instruction,
            CompiledExtractor::Pattern(pattern) => pattern@ == instruction,
        }
    }
}

/// Compiles the instruction of a rule for the engine `kind`: as a jq
/// program or as a regular expression.
pub fn compile(instruction: &str, kind: Extractor) -> (out: Result<CompiledExtractor, CompileError>)
    ensures
        out is Ok <==> compiles(kind, instruction@),
        out matches Ok(compiled) ==> compiled.kind() == kind && compiled.built_from(instruction@),
        out matches Err(e) ==> e.instruction@ == instruction@,
{
    match kind {
        Extractor::Jq => match compile_query(instruction) {
            Ok(query) => Ok(CompiledExtractor::Query(query)),
            Err(error) => Err(
                CompileError { instruction: instruction.to_owned(), message: query_error_text(&error) },
            ),
        },
        Extractor::Regex => match compile_pattern(instruction) {
            Ok(pattern) => Ok(CompiledExtractor::Pattern(pattern)),
            Err(error) => Err(
                CompileError {
                    instruction: instruction.to_owned(),
                    message: pattern_error_text(&error),
                },
            ),
        },
    }
}

/// What running `compiled` on `text` gives.
///
/// A pattern gives exactly what [`pattern_finding`] says of its groups and
/// its match in the text. A query is not run here: it gives what
/// [`queried_findings`] says of the run that was handed in.
pub open spec fn extraction(compiled: CompiledExtractor, text: Seq<char>, queried: Queried) -> Result<
    Seq<FindingView>,
    RuleError,
> {
    match compiled {
        CompiledExtractor::Pattern(pattern) => single(
            pattern_finding(pattern_groups(pattern@), pattern_match(pattern@, text)),
        ),
        CompiledExtractor::Query(_) => queried_findings(queried),
    }
}

/// Runs a compiled pattern on the text of a response, or reads what the run
/// of a compiled query gave.
pub fn extract(compiled: &CompiledExtractor, text: &str, queried: &Queried) -> (out: Result<
    Vec<Finding>,
    RuleError,
>)
    ensures
        findings_view(out) == extraction(*compiled, text@, *queried),
{
    match compiled {
        CompiledExtractor::Query(_) => findings_of_queried(queried),
        CompiledExtractor::Pattern(pattern) => match extract_pattern(pattern, text) {
            Ok(finding) => {
                let mut found: Vec<Finding> = Vec::new();
                found.push(finding);
                assert(found.deep_view() =~= seq![finding.deep_view()]);
                Ok(found)
            },
            Err(e) => Err(e),
        },
    }
}

} // verus!

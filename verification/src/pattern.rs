//! Pattern-capture extraction: one measurement from the capture groups of a
//! regular expression.

use crate::finding::{bare, Finding, FindingView, Label, RuleError};
use crate::text::{push_text, same_text};
use vstd::prelude::*;

verus! {

/// `regex::Regex`, a compiled regular expression. Nothing inside it is
/// read here.
#[verifier::external_type_specification]
#[verifier::external_body]
pub struct ExRegex(regex::Regex);

/// `regex::Error`, why a pattern did not compile. Nothing inside it is read
/// here.
#[verifier::external_type_specification]
#[verifier::external_body]
pub struct ExRegexError(regex::Error);

/// A compiled regular expression together with the pattern that it was
/// compiled from. The only way to one is [`compile_pattern`], so that the
/// expression inside is always the one that `regex::Regex::new` builds from
/// the pattern, with no option changed.
pub struct Pattern {
    source: String,
    regex: regex::Regex,
}

impl View for Pattern {
    type V = Seq<char>;

    /// The pattern.
    closed spec fn view(&self) -> Seq<char> {
        self.source@
    }
}

/// Whether `regex::Regex::new` accepts `pattern`, in this build.
pub uninterp spec fn pattern_compiles(pattern: Seq<char>) -> bool;

/// The capture groups of `pattern` by index, each with its name if it has
/// one: what `regex::Regex::capture_names` yields.
pub uninterp spec fn pattern_groups(pattern: Seq<char>) -> Seq<Option<Seq<char>>>;

/// The leftmost match of `pattern` in `text`: `None` if there is none, else
/// for each capture group by index the text it matched, if it took part.
/// This is what `regex::Regex::captures` returns.
pub uninterp spec fn pattern_match(pattern: Seq<char>, text: Seq<char>) -> Option<
    Seq<Option<Seq<char>>>,
>;

/// Compiles `pattern`.
///
/// Trusted: this is `regex::Regex::new`. It fails on an invalid pattern and
/// on one whose compiled program would exceed the default size limit. The
/// limit is counted in bytes of the build's own data layout: within one
/// build the outcome depends on the pattern alone, while a very large
/// pattern may compile on a build with 32-bit pointers and fail on one with
/// 64-bit pointers. The pattern is kept beside the expression.
#[verifier::external_body]
pub(crate) fn compile_pattern(pattern: &str) -> (compiled: Result<Pattern, regex::Error>)
    ensures
        compiled is Ok <==> pattern_compiles(pattern@),
        compiled matches Ok(p) ==> p@ == pattern@,
{
    let regex = regex::Regex::new(pattern)?;
    Ok(Pattern { source: String::from(pattern), regex })
}

/// What the error of a failed compilation says.
///
/// Trusted: this is the `Display` of `regex::Error`; nothing is claimed of
/// the text.
#[verifier::external_body]
pub(crate) fn pattern_error_text(error: &regex::Error) -> String {
    error.to_string()
}

/// The names of the capture groups of `pattern`, by index.
///
/// Trusted: this is `regex::Regex::capture_names`, which yields one entry
/// for every capture group in the order of the opening parentheses, group 0
/// included, and depends on the pattern alone.
#[verifier::external_body]
pub(crate) fn group_names(pattern: &Pattern) -> (names: Vec<Option<String>>)
    ensures
        names.deep_view() == pattern_groups(pattern@),
{
    pattern.regex.capture_names().map(|name| name.map(String::from)).collect()
}

/// The leftmost match of `pattern` in `text`, each group as the text it
/// matched.
///
/// Trusted: this is `regex::Regex::captures` with `regex::Captures::iter`,
/// which yields every capture group by index, `None` for one that took no
/// part in the match. The result depends on the pattern and the text alone.
#[verifier::external_body]
pub(crate) fn captures(pattern: &Pattern, text: &str) -> (groups: Option<Vec<Option<String>>>)
    ensures
        groups.deep_view() == pattern_match(pattern@, text@),
{
    let found = pattern.regex.captures(text)?;
    Some(found.iter().map(|group| group.map(|m| String::from(m.as_str()))).collect())
}

/// The index of the first group at or after `from` that is named `name`.
pub open spec fn group_named(names: Seq<Option<Seq<char>>>, name: Seq<char>, from: int) -> Option<
    int,
>
    decreases names.len() - from,
{
    if from < 0 || from >= names.len() {
        None
    } else if names[from] == Some(name) {
        Some(from)
    } else {
        group_named(names, name, from + 1)
    }
}

/// Whether a group at or after `from` has a name.
pub open spec fn any_named(names: Seq<Option<Seq<char>>>, from: int) -> bool
    decreases names.len() - from,
{
    if from < 0 || from >= names.len() {
        false
    } else if names[from] is Some {
        true
    } else {
        any_named(names, from + 1)
    }
}

/// The labels of a match whose pattern has a group named `value`: of the
/// first `upto` groups, each one that has another name and took part in the
/// match gives a label, its name the key and its text the value.
pub open spec fn group_labels(
    names: Seq<Option<Seq<char>>>,
    groups: Seq<Option<Seq<char>>>,
    upto: int,
) -> Seq<(Seq<char>, Seq<char>)>
    decreases upto,
{
    if upto <= 0 {
        Seq::empty()
    } else {
        let before = group_labels(names, groups, upto - 1);
        let i = upto - 1;
        if i < names.len() && i < groups.len() && names[i] is Some && names[i] != Some("value"@)
            && groups[i] is Some {
            before.push((names[i]->0, groups[i]->0))
        } else {
            before
        }
    }
}

/// The texts of the groups `1..upto` that took part in the match, one after
/// the other with nothing between them.
pub open spec fn joined_groups(groups: Seq<Option<Seq<char>>>, upto: int) -> Seq<char>
    decreases upto,
{
    if upto <= 1 {
        Seq::empty()
    } else {
        let before = joined_groups(groups, upto - 1);
        let i = upto - 1;
        if i < groups.len() && groups[i] is Some {
            before + groups[i]->0
        } else {
            before
        }
    }
}

/// What a pattern finds, given the names of its groups and its match.
///
/// - No match is an error.
/// - A pattern with a group named `value` reads that group, which must have
///   taken part in the match, and labels the finding with every other named
///   group that took part.
/// - A pattern without any named group reads group 1 if it exists and took
///   part, else the whole match.
/// - A pattern with named groups, none of them `value`, reads the groups
///   after group 0 joined in index order.
pub open spec fn pattern_finding(
    names: Seq<Option<Seq<char>>>,
    found: Option<Seq<Option<Seq<char>>>>,
) -> Result<FindingView, RuleError> {
    match found {
        None => Err(RuleError::NoMatch),
        Some(groups) => match group_named(names, "value"@, 0) {
            Some(i) => if i < groups.len() && groups[i] is Some {
                Ok(
                    FindingView {
                        reading: groups[i]->0,
                        labels: group_labels(names, groups, names.len() as int),
                    },
                )
            } else {
                Err(RuleError::MissingValue)
            },
            None => if any_named(names, 0) {
                Ok(bare(joined_groups(groups, groups.len() as int)))
            } else if 1 < groups.len() && groups[1] is Some {
                Ok(bare(groups[1]->0))
            } else if 0 < groups.len() && groups[0] is Some {
                Ok(bare(groups[0]->0))
            } else {
                Err(RuleError::NoMatch)
            },
        },
    }
}

/// The finding of a `Result`, as its mathematical content.
pub open spec fn finding_view(found: Result<Finding, RuleError>) -> Result<FindingView, RuleError> {
    match found {
        Ok(f) => Ok(f.deep_view()),
        Err(e) => Err(e),
    }
}

fn find_group(names: &Vec<Option<String>>, name: &str) -> (at: Option<usize>)
    ensures
        match at {
            Some(i) => group_named(names.deep_view(), name@, 0) == Some(i as int),
            None => group_named(names.deep_view(), name@, 0) is None,
        },
{
    let mut i: usize = 0;
    while i < names.len()
        invariant
            i <= names.len(),
            group_named(names.deep_view(), name@, 0) == group_named(names.deep_view(), name@, i as int),
        decreases names.len() - i,
    {
        let hit = match &names[i] {
            Some(n) => same_text(n.as_str(), name),
            None => false,
        };
        assert(hit == (names.deep_view()[i as int] == Some(name@)));
        if hit {
            return Some(i);
        }
        i += 1;
    }
    None
}

fn has_named(names: &Vec<Option<String>>) -> (any: bool)
    ensures
        any == any_named(names.deep_view(), 0),
{
    let mut i: usize = 0;
    while i < names.len()
        invariant
            i <= names.len(),
            any_named(names.deep_view(), 0) == any_named(names.deep_view(), i as int),
        decreases names.len() - i,
    {
        if names[i].is_some() {
            assert(names.deep_view()[i as int] is Some);
            return true;
        }
        assert(names.deep_view()[i as int] is None);
        i += 1;
    }
    false
}

fn labels_of_groups(names: &Vec<Option<String>>, groups: &Vec<Option<String>>) -> (labels: Vec<Label>)
    ensures
        labels.deep_view() == group_labels(
            names.deep_view(),
            groups.deep_view(),
            names.len() as int,
        ),
{
    let mut labels: Vec<Label> = Vec::new();
    assert(labels.deep_view() =~= Seq::empty());
    let mut i: usize = 0;
    while i < names.len()
        invariant
            i <= names.len(),
            labels.deep_view() == group_labels(names.deep_view(), groups.deep_view(), i as int),
        decreases names.len() - i,
    {
        let ghost before = labels.deep_view();
        if i < groups.len() {
            match (&names[i], &groups[i]) {
                (Some(n), Some(t)) => {
                    if !same_text(n.as_str(), "value") {
                        labels.push(Label { key: n.clone(), value: t.clone() });
                        assert(labels.deep_view() =~= before.push((n@, t@)));
                    }
                },
                _ => {},
            }
        }
        assert(names.deep_view()[i as int] == names@[i as int].deep_view());
        assert(i < groups.len() ==> groups.deep_view()[i as int] == groups@[i as int].deep_view());
        i += 1;
    }
    labels
}

fn join_groups(groups: &Vec<Option<String>>) -> (joined: String)
    ensures
        joined@ == joined_groups(groups.deep_view(), groups.len() as int),
{
    let mut joined = String::new();
    if groups.len() == 0 {
        return joined;
    }
    let mut i: usize = 1;
    while i < groups.len()
        invariant
            1 <= i <= groups.len(),
            joined@ == joined_groups(groups.deep_view(), i as int),
        decreases groups.len() - i,
    {
        match &groups[i] {
            Some(t) => {
                push_text(&mut joined, t.as_str());
            },
            None => {},
        }
        assert(groups.deep_view()[i as int] == groups@[i as int].deep_view());
        i += 1;
    }
    joined
}

/// Decides what a pattern finds, from the names of its groups and its match
/// in a response.
pub fn finding_of_match(names: &Vec<Option<String>>, found: &Option<Vec<Option<String>>>) -> (out:
    Result<Finding, RuleError>)
    ensures
        finding_view(out) == pattern_finding(names.deep_view(), found.deep_view()),
{
    match found {
        None => Err(RuleError::NoMatch),
        Some(groups) => {
            assert(found.deep_view() == Some(groups.deep_view()));
            match find_group(names, "value") {
                Some(i) => {
                    if i < groups.len() {
                        assert(groups.deep_view()[i as int] == groups@[i as int].deep_view());
                        match &groups[i] {
                            Some(t) => {
                                let labels = labels_of_groups(names, groups);
                                Ok(Finding { reading: t.clone(), labels })
                            },
                            None => Err(RuleError::MissingValue),
                        }
                    } else {
                        Err(RuleError::MissingValue)
                    }
                },
                None => {
                    if has_named(names) {
                        Ok(Finding::plain(join_groups(groups)))
                    } else {
                        if groups.len() > 1 {
                            assert(groups.deep_view()[1] == groups@[1].deep_view());
                        }
                        if groups.len() > 0 {
                            assert(groups.deep_view()[0] == groups@[0].deep_view());
                        }
                        if groups.len() > 1 && groups[1].is_some() {
                            let t = groups[1].as_ref().unwrap();
                            Ok(Finding::plain(t.clone()))
                        } else if groups.len() > 0 && groups[0].is_some() {
                            let t = groups[0].as_ref().unwrap();
                            Ok(Finding::plain(t.clone()))
                        } else {
                            Err(RuleError::NoMatch)
                        }
                    }
                },
            }
        },
    }
}

/// Runs a compiled pattern on a response and decides what it finds.
pub fn extract_pattern(pattern: &Pattern, text: &str) -> (out: Result<Finding, RuleError>)
    ensures
        finding_view(out) == pattern_finding(pattern_groups(pattern@), pattern_match(pattern@, text@)),
{
    let names = group_names(pattern);
    let found = captures(pattern, text);
    finding_of_match(&names, &found)
}

} // verus!

//! One scrape of one target: the request that is sent, what is made of the
//! answer, and what the rules take from it.

use crate::finding::{Finding, RuleError};
use crate::metric::Sample;
use crate::query::Queried;
use crate::series::Metrics;
use crate::rule::{rule_measured, rule_scraped};
use crate::target::{configured_alike, queried_at, Target};
use crate::text::{decimal, push_decimal, push_text, same_text};
use vstd::prelude::*;

verus! {

/// How a request ended.
#[derive(Debug, Clone, PartialEq, Eq)]
pub enum Fetched {
    /// No response came back; the text says why.
    Failed(String),
    /// A response came back: its status code, and its body if it could be
    /// decoded as text.
    Response { status: u16, body: Option<String> },
}

/// Why a whole scrape was given up. No rule of the target is touched.
#[derive(Debug, Clone, PartialEq, Eq)]
pub enum ScrapeError {
    /// The request could not be carried out.
    Request(String),
    /// The response has a status code outside 200 to 299.
    Status(u16),
    /// The body could not be decoded as text.
    Body,
}

/// What an error of a scrape says in words.
pub open spec fn described_scrape_error(error: ScrapeError) -> Seq<char> {
    match error {
        ScrapeError::Request(why) => "requesting: "@ + why@,
        ScrapeError::Status(status) => "status code: "@ + decimal(status as nat),
        ScrapeError::Body => "parsing response as string"@,
    }
}

impl ScrapeError {
    /// The error in words.
    pub fn describe(&self) -> (words: String)
        ensures
            words@ == described_scrape_error(*self),
    {
        match self {
            ScrapeError::Request(why) => {
                let mut words = "requesting: ".to_owned();
                push_text(&mut words, why.as_str());
                words
            },
            ScrapeError::Status(status) => {
                let mut words = "status code: ".to_owned();
                push_decimal(&mut words, *status as u128);
                words
            },
            ScrapeError::Body => "parsing response as string".to_owned(),
        }
    }
}

/// Whether a status code says success: 200 to 299.
pub open spec fn is_success(status: u16) -> bool {
    200 <= status <= 299
}

/// The text of a response that can be scraped: one with a success status
/// and a body that is text. `None` for every other way a request can end.
pub open spec fn fetched_text(fetched: Fetched) -> Option<Seq<char>> {
    match fetched {
        Fetched::Failed(_) => None,
        Fetched::Response { status, body } => if is_success(status) && body is Some {
            Some(body->0@)
        } else {
            None
        },
    }
}

/// Whether `error` is the error of `fetched`: a failed request before a bad
/// status, a bad status before a body that is no text.
pub open spec fn is_fetch_error(fetched: Fetched, error: ScrapeError) -> bool {
    match fetched {
        Fetched::Failed(why) => error matches ScrapeError::Request(text) && text@ == why@,
        Fetched::Response { status, body } => if !is_success(status) {
            error == ScrapeError::Status(status)
        } else {
            body is None && error == ScrapeError::Body
        },
    }
}

/// Decides whether the answer to a request can be scraped, and gives its
/// text if so.
pub fn response_text(fetched: Fetched) -> (out: Result<String, ScrapeError>)
    ensures
        match out {
            Ok(text) => fetched_text(fetched) == Some(text@),
            Err(error) => fetched_text(fetched) is None && is_fetch_error(fetched, error),
        },
{
    match fetched {
        Fetched::Failed(why) => Err(ScrapeError::Request(why)),
        Fetched::Response { status, body } => {
            if status < 200 || status > 299 {
                Err(ScrapeError::Status(status))
            } else {
                match body {
                    Some(text) => Ok(text),
                    None => Err(ScrapeError::Body),
                }
            }
        },
    }
}

/// Whether `headers` holds a header named exactly `name`.
pub open spec fn has_header(headers: Seq<(Seq<char>, Seq<char>)>, name: Seq<char>) -> bool {
    exists|i: int| 0 <= i < headers.len() && (#[trigger] headers[i]).0 == name
}

/// The headers of the request for a target: those of the target, after a
/// `User-Agent` header with `agent` if the target gives none of that name.
pub open spec fn merged_headers(headers: Seq<(Seq<char>, Seq<char>)>, agent: Seq<char>) -> Seq<
    (Seq<char>, Seq<char>),
> {
    if has_header(headers, "User-Agent"@) {
        headers
    } else {
        seq![("User-Agent"@, agent)] + headers
    }
}

/// The headers to send with the request for a target whose configuration
/// gives `headers`. `agent` identifies this program; it never replaces a
/// `User-Agent` that the target gives.
pub fn request_headers(headers: &Vec<(String, String)>, agent: &str) -> (out: Vec<(String, String)>)
    ensures
        out.deep_view() == merged_headers(headers.deep_view(), agent@),
{
    let mut given = false;
    let mut i: usize = 0;
    while i < headers.len()
        invariant
            i <= headers.len(),
            given == exists|k: int|
                0 <= k < i && (#[trigger] headers.deep_view()[k]).0 == "User-Agent"@,
        decreases headers.len() - i,
    {
        if same_text(headers[i].0.as_str(), "User-Agent") {
            assert(headers.deep_view()[i as int].0 == "User-Agent"@);
            given = true;
        }
        i += 1;
    }
    let mut out: Vec<(String, String)> = Vec::new();
    if !given {
        out.push(("User-Agent".to_owned(), agent.to_owned()));
    }
    let ghost head = out.deep_view();
    let mut j: usize = 0;
    while j < headers.len()
        invariant
            j <= headers.len(),
            out.deep_view() == head + headers.deep_view().take(j as int),
        decreases headers.len() - j,
    {
        let ghost before = out.deep_view();
        out.push((headers[j].0.clone(), headers[j].1.clone()));
        assert(out.deep_view() =~= before.push(headers.deep_view()[j as int]));
        assert(headers.deep_view().take(j + 1) =~= headers.deep_view().take(j as int).push(
            headers.deep_view()[j as int],
        ));
        j += 1;
    }
    assert(headers.deep_view().take(headers.len() as int) =~= headers.deep_view());
    assert(!given ==> head =~= seq![("User-Agent"@, agent@)]);
    assert(given ==> head =~= Seq::empty());
    out
}

/// The text of the answer to a request, if the answer can be scraped. This
/// is the text that the queries of the target are run on.
pub fn scrapable_text(fetched: &Fetched) -> (text: Option<&str>)
    ensures
        match text {
            Some(t) => fetched_text(*fetched) == Some(t@),
            None => fetched_text(*fetched) is None,
        },
{
    match fetched {
        Fetched::Failed(_) => None,
        Fetched::Response { status, body } => {
            if *status < 200 || *status > 299 {
                None
            } else {
                match body {
                    Some(text) => Some(text.as_str()),
                    None => None,
                }
            }
        },
    }
}

/// Measures a target on the answer to its request, and stores nothing: the
/// target can be shared while this runs, and the result is handed to
/// [`Target::store`] afterwards.
///
/// A request that failed, a status code that is no success and a body that
/// is no text each give up the whole scrape. Otherwise every rule is
/// measured on the text for itself; `queried[i]` is what the run of the
/// query of the rule at index `i` on that text gave.
pub fn measure_response<F: Fn(&Finding) -> Option<Sample>>(
    target: &Target,
    fetched: Fetched,
    queried: &Vec<Queried>,
    read: &F,
    now: u128,
) -> (out: Result<Vec<Result<Metrics, RuleError>>, ScrapeError>)
    requires
        forall|f: &Finding| call_requires(*read, (f,)),
    ensures
        match fetched_text(fetched) {
            None => out matches Err(error) && is_fetch_error(fetched, error),
            Some(text) => out matches Ok(results) && results.len() == target.rule_list().len()
                && forall|i: int|
                0 <= i < results.len() ==> rule_measured(
                    target.rule_list()[i],
                    text,
                    queried_at(queried@, i),
                    *read,
                    now,
                    #[trigger] results[i],
                ),
        },
{
    match response_text(fetched) {
        Err(error) => Err(error),
        Ok(text) => Ok(target.measure(text.as_str(), queried, read, now)),
    }
}

/// Scrapes a target with the answer to its request.
///
/// A request that failed, a status code that is no success and a body that
/// is no text each give up the whole scrape: the error is that of the
/// scrape, and the target is exactly as it was. Otherwise every rule is
/// scraped on the text for itself, and the result holds for each rule the
/// error of that rule, if it had one. `queried[i]` is what the run of the
/// query of the rule at index `i` on that text gave.
pub fn try_scrape_target<F: Fn(&Finding) -> Option<Sample>>(
    target: &mut Target,
    fetched: Fetched,
    queried: &Vec<Queried>,
    read: &F,
    now: u128,
) -> (out: Result<Vec<Option<RuleError>>, ScrapeError>)
    requires
        forall|f: &Finding| call_requires(*read, (f,)),
    ensures
        match fetched_text(fetched) {
            None => out matches Err(error) && is_fetch_error(fetched, error) && *final(target)
                == *old(target),
            Some(text) => out matches Ok(reports) && configured_alike(old(target)@, final(target)@)
                && reports.len() == old(target).rule_list().len() && final(target).rule_list().len()
                == old(target).rule_list().len() && forall|i: int|
                0 <= i < reports.len() ==> rule_scraped(
                    old(target).rule_list()[i],
                    final(target).rule_list()[i],
                    text,
                    queried_at(queried@, i),
                    *read,
                    now,
                    #[trigger] reports[i],
                ),
        },
{
    match response_text(fetched) {
        Err(error) => Err(error),
        Ok(text) => Ok(target.extract(text.as_str(), queried, read, now)),
    }
}

} // verus!

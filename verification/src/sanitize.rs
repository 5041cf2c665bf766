//! The character filter that makes any text fit for a label.

use crate::text::push_char;
use vstd::prelude::*;

verus! {

/// Whether `c` may stand in a label as it is: an ASCII letter, an ASCII
/// digit, `_` or `.`.
pub open spec fn is_label_char(c: char) -> bool {
    ('a' <= c && c <= 'z') || ('A' <= c && c <= 'Z') || ('0' <= c && c <= '9') || c == '_' || c
        == '.'
}

/// What the filter makes of one character.
pub open spec fn sanitized_char(c: char) -> char {
    if is_label_char(c) {
        c
    } else {
        '_'
    }
}

/// What the filter makes of a text: the same length, every character that
/// may not stand in a label replaced by `_`.
pub open spec fn sanitized(s: Seq<char>) -> Seq<char> {
    Seq::new(s.len(), |i: int| sanitized_char(s[i]))
}

/// Whether every character of `s` may stand in a label.
pub open spec fn is_label_text(s: Seq<char>) -> bool {
    forall|i: int| 0 <= i < s.len() ==> is_label_char(#[trigger] s[i])
}

/// Replaces every character other than ASCII letters, ASCII digits, `_` and
/// `.` by `_`.
pub fn sanitize_for_prometheus(name: &str) -> (out: String)
    ensures
        out@ == sanitized(name@),
{
    let mut out = String::new();
    for c in it: name.chars()
        invariant
            it.seq() == name@,
            out@ == sanitized(name@.take(it.index() as int)),
    {
        assert(name@.take(it.index() + 1) == name@.take(it.index() as int).push(c));
        let keep = (c >= 'a' && c <= 'z') || (c >= 'A' && c <= 'Z') || (c >= '0' && c <= '9') || c
            == '_' || c == '.';
        if keep {
            push_char(&mut out, c);
        } else {
            push_char(&mut out, '_');
        }
    }
    out
}

/// The output of the filter holds only characters that may stand in a
/// label, whatever the input held.
pub proof fn lemma_sanitized_is_label_text(s: Seq<char>)
    ensures
        is_label_text(sanitized(s)),
        sanitized(s).len() == s.len(),
{
}

/// Text that already fits a label passes the filter unchanged.
pub proof fn lemma_sanitized_keeps_label_text(s: Seq<char>)
    requires
        is_label_text(s),
    ensures
        sanitized(s) == s,
{
    assert(sanitized(s) =~= s);
}

/// Filtering twice gives what filtering once gives.
pub proof fn lemma_sanitized_idempotent(s: Seq<char>)
    ensures
        sanitized(sanitized(s)) == sanitized(s),
{
    lemma_sanitized_is_label_text(s);
    lemma_sanitized_keeps_label_text(sanitized(s));
}

} // verus!

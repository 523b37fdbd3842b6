//! Searching response text with regular expressions.

use regex::Regex;
use vstd::prelude::*;

verus! {

/// Whether `needle` stands in `text` at index `at`.
pub open spec fn occurs_at(needle: Seq<char>, text: Seq<char>, at: int) -> bool {
    &&& 0 <= at
    &&& at + needle.len() <= text.len()
    &&& text.subrange(at, at + needle.len()) == needle
}

/// Whether `needle` is a substring of `text`.
pub open spec fn occurs_in(needle: Seq<char>, text: Seq<char>) -> bool {
    exists|at: int| occurs_at(needle, text, at)
}

/// Whether the texts of `parts` stand in `text` one after another, in
/// their order and without overlap, none of them before index `from`.
pub open spec fn occur_in_order(parts: Seq<Seq<char>>, text: Seq<char>, from: int) -> bool
    decreases parts.len(),
{
    if parts.len() == 0 {
        true
    } else {
        exists|at: int|
            from <= at && #[trigger] occurs_at(parts[0], text, at) && occur_in_order(
                parts.drop_first(),
                text,
                at + parts[0].len(),
            )
    }
}

/// Whether `c` is a character that a regular expression takes as itself:
/// an ASCII letter, an ASCII digit or a colon.
pub open spec fn is_plain_char(c: char) -> bool {
    ('a' <= c && c <= 'z') || ('A' <= c && c <= 'Z') || ('0' <= c && c <= '9') || c == ':'
}

/// Whether `pattern`, read as a regular expression, stands for itself and
/// nothing else: a short run of plain characters.
pub open spec fn is_plain_literal(pattern: Seq<char>) -> bool {
    &&& pattern.len() <= 64
    &&& forall|i: int| 0 <= i < pattern.len() ==> is_plain_char(#[trigger] pattern[i])
}

/// What the first capture group of the regular expression `pattern` holds
/// at the leftmost match in `text`; `None` where `pattern` is no regular
/// expression, where it matches nowhere, or where the group took no part.
pub uninterp spec fn first_group_capture(pattern: Seq<char>, text: Seq<char>) -> Option<
    Seq<char>,
>;

/// Compiles `pattern` with `Regex::new`, searches `text` with
/// `Regex::captures` and copies out group 1 of the leftmost match
/// (`Captures::get`, `Match::as_str`). Trusted: the result is the named
/// capture; nothing is claimed of what it holds.
#[verifier::external_body]
pub(crate) fn first_group(pattern: &str, text: &str) -> (capture: Option<String>)
    ensures
        match capture {
            Some(found) => first_group_capture(pattern@, text@) == Some(found@),
            None => first_group_capture(pattern@, text@) is None,
        },
{
    match Regex::new(pattern) {
        Ok(re) => match re.captures(text) {
            Some(groups) => match groups.get(1) {
                Some(found) => Some(found.as_str().to_string()),
                None => None,
            },
            None => None,
        },
        Err(_) => None,
    }
}

/// Compiles `pattern` with `Regex::new` and asks `Regex::is_match` whether
/// it matches anywhere in `text`. Trusted: a pattern made of plain
/// characters compiles, and matches exactly where it occurs as a substring.
#[verifier::external_body]
pub(crate) fn literal_is_match(pattern: &str, text: &str) -> (found: bool)
    requires
        is_plain_literal(pattern@),
    ensures
        found == occurs_in(pattern@, text@),
{
    match Regex::new(pattern) {
        Ok(re) => re.is_match(text),
        Err(_) => false,
    }
}

} // verus!

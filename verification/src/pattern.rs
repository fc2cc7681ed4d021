//! Regular expressions, as the `regex` crate matches them.

use regex::Regex;
use vstd::prelude::*;

verus! {

/// Whether the regular expression `pattern` matches somewhere in `text`;
/// `None` where the engine does not accept `pattern`.
pub uninterp spec fn regex_is_match(pattern: Seq<char>, text: Seq<char>) -> Option<bool>;

/// What the leftmost match of the regular expression `pattern` in `text`
/// captured: the text of the whole match first, then that of each group of
/// `pattern` in the order of their opening brackets, `None` for a group that
/// took no part. The inner `None` where nothing in `text` matches, the outer
/// one where the engine does not accept `pattern`.
pub uninterp spec fn regex_captures(pattern: Seq<char>, text: Seq<char>) -> Option<
    Option<Seq<Option<Seq<char>>>>,
>;

/// Compiles `pattern` with `regex::Regex::new` and asks `Regex::is_match`
/// whether it matches somewhere in `text`. Nothing is proved of the answer:
/// it is what `regex_is_match` names. A pattern that does not compile gives
/// `None`.
#[verifier::external_body]
pub(crate) fn is_match(pattern: &str, text: &str) -> (r: Option<bool>)
    ensures
        r == regex_is_match(pattern@, text@),
{
    match Regex::new(pattern) {
        Ok(regex) => Some(regex.is_match(text)),
        Err(_) => None,
    }
}

/// Compiles `pattern` with `regex::Regex::new`, searches `text` with
/// `Regex::captures` and copies out, with `Captures::iter` and
/// `Match::as_str`, the text of every group. Nothing is proved of the
/// answer: it is what `regex_captures` names. A pattern that does not
/// compile gives `None`, a text without a match `Some(None)`.
#[verifier::external_body]
pub(crate) fn captures(pattern: &str, text: &str) -> (r: Option<Option<Vec<Option<String>>>>)
    ensures
        r.deep_view() == regex_captures(pattern@, text@),
{
    match Regex::new(pattern) {
        Ok(regex) => Some(
            regex.captures(text).map(
                |found| found.iter().map(|group| group.map(|m| m.as_str().to_owned())).collect(),
            ),
        ),
        Err(_) => None,
    }
}

} // verus!

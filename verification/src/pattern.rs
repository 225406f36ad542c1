//! Regular-expression matching, done by the `regex` crate.
//!
//! What a pattern matches is not described here: each operation has a name
//! that stands for the crate's answer, and the callers' contracts speak of
//! those names.
use vstd::prelude::*;
use regex::Regex;
use crate::text::texts;

verus! {

/// Whether `pattern` matches anywhere in `haystack`; `None` when `pattern`
/// is not a regular expression the crate accepts.
pub uninterp spec fn regex_is_match(pattern: Seq<char>, haystack: Seq<char>) -> Option<bool>;

/// The byte offset at which the leftmost match of `pattern` in `haystack`
/// starts, if there is a match; `None` when `pattern` is not accepted.
pub uninterp spec fn regex_find_start(pattern: Seq<char>, haystack: Seq<char>) -> Option<
    Option<usize>,
>;

/// The pieces of `haystack` between the successive matches of `pattern`;
/// `None` when `pattern` is not accepted.
pub uninterp spec fn regex_split(pattern: Seq<char>, haystack: Seq<char>) -> Option<
    Seq<Seq<char>>,
>;

/// `haystack` with every match of `pattern` replaced by the expansion of
/// `replacement`; `None` when `pattern` is not accepted.
pub uninterp spec fn regex_replace_all(
    pattern: Seq<char>,
    haystack: Seq<char>,
    replacement: Seq<char>,
) -> Option<Seq<char>>;

/// Calls `Regex::is_match` on the expression compiled by `Regex::new` from
/// `pattern`. The answer is a function of the two texts; nothing is claimed
/// about which texts a pattern matches.
#[verifier::external_body]
pub(crate) fn is_match(pattern: &str, haystack: &str) -> (r: Option<bool>)
    ensures
        r == regex_is_match(pattern@, haystack@),
{
    match Regex::new(pattern) {
        Ok(re) => Some(re.is_match(haystack)),
        Err(_) => None,
    }
}

/// Calls `Regex::find` on the expression compiled by `Regex::new` from
/// `pattern`, and hands back where the match starts, in bytes.
#[verifier::external_body]
pub(crate) fn find_start(pattern: &str, haystack: &str) -> (r: Option<Option<usize>>)
    ensures
        r == regex_find_start(pattern@, haystack@),
{
    match Regex::new(pattern) {
        Ok(re) => Some(re.find(haystack).map(|m| m.start())),
        Err(_) => None,
    }
}

/// Calls `Regex::split` on the expression compiled by `Regex::new` from
/// `pattern`, and collects the pieces in order.
#[verifier::external_body]
pub(crate) fn split(pattern: &str, haystack: &str) -> (r: Option<Vec<String>>)
    ensures
        match r {
            Some(v) => regex_split(pattern@, haystack@) == Some(texts(v@)),
            None => regex_split(pattern@, haystack@) is None,
        },
{
    match Regex::new(pattern) {
        Ok(re) => Some(re.split(haystack).map(|piece| piece.to_string()).collect()),
        Err(_) => None,
    }
}

/// Calls `Regex::replace_all` on the expression compiled by `Regex::new`
/// from `pattern`.
#[verifier::external_body]
pub(crate) fn replace_all(pattern: &str, haystack: &str, replacement: &str) -> (r: Option<String>)
    ensures
        match r {
            Some(s) => regex_replace_all(pattern@, haystack@, replacement@) == Some(s@),
            None => regex_replace_all(pattern@, haystack@, replacement@) is None,
        },
{
    match Regex::new(pattern) {
        Ok(re) => Some(re.replace_all(haystack, replacement).into_owned()),
        Err(_) => None,
    }
}

} // verus!

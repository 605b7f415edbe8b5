//! Regular expressions, which the `regex` crate reads and runs.

use vstd::prelude::*;

verus! {

/// Whether the `regex` crate accepts a text as a regular expression.
pub uninterp spec fn regex_compiles(pattern: Seq<char>) -> bool;

/// Whether the regular expression that the `regex` crate makes of
/// `pattern` finds a match somewhere in `text`.
pub uninterp spec fn regex_match(pattern: Seq<char>, text: Seq<char>) -> bool;

/// Whether `pattern` is a regular expression that finds a match in `text`.
pub open spec fn matches_regex(pattern: Seq<char>, text: Seq<char>) -> bool {
    regex_compiles(pattern) && regex_match(pattern, text)
}

/// `Regex::new`: whether it accepts the text depends on the text alone.
#[verifier::external_body]
pub(crate) fn regex_is_valid(pattern: &str) -> (r: bool)
    ensures
        r == regex_compiles(pattern@),
{
    regex::Regex::new(pattern).is_ok()
}

/// `Regex::new` and, where it accepts the pattern, `Regex::is_match`:
/// nothing comes back for a pattern that is refused, and else whether a
/// match was found, which depends on the two texts alone.
#[verifier::external_body]
pub(crate) fn regex_is_match(pattern: &str, text: &str) -> (r: Option<bool>)
    ensures
        r is Some <==> regex_compiles(pattern@),
        r matches Some(found) ==> found == regex_match(pattern@, text@),
{
    regex::Regex::new(pattern).ok().map(|re| re.is_match(text))
}

/// Whether `pattern` is a regular expression that finds a match in `text`.
pub fn is_match(pattern: &str, text: &str) -> (r: bool)
    ensures
        r == matches_regex(pattern@, text@),
{
    match regex_is_match(pattern, text) {
        Some(found) => found,
        None => false,
    }
}

} // verus!

//! Regular expressions, as the hooks use them.

use vstd::prelude::*;

verus! {

/// Whether a regular expression matches somewhere in a text, as
/// `fancy_regex` decides it; nothing where the expression does not compile or
/// the search gives up.
pub uninterp spec fn regex_match(pattern: Seq<char>, text: Seq<char>) -> Option<bool>;

/// Trusted: compiling a pattern with `fancy_regex::Regex::new` and searching
/// a text with `Regex::is_match`, both with the default options, depends on
/// the two texts alone; `regex_match` names the outcome. An error of either
/// step gives nothing.
#[verifier::external_body]
pub(crate) fn pattern_matches(pattern: &str, text: &str) -> (out: Option<bool>)
    ensures
        out == regex_match(pattern@, text@),
{
    match fancy_regex::Regex::new(pattern) {
        Ok(re) => re.is_match(text).ok(),
        Err(_) => None,
    }
}

} // verus!

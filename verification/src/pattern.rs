//! Patterns of topic names.
use vstd::prelude::*;

verus! {

/// A compiled pattern of the `regex` crate.
#[verifier::external_type_specification]
#[verifier::external_body]
pub struct ExRegex(regex::Regex);

/// The texts in which a pattern finds a match.
pub uninterp spec fn matched(pattern: regex::Regex) -> Set<Seq<char>>;

/// `Regex::is_match` says whether there is a match for the pattern anywhere in the text. Which
/// texts those are depends on the pattern alone.
pub assume_specification[ regex::Regex::is_match ](re: &regex::Regex, haystack: &str) -> (r: bool)
    ensures
        r == matched(*re).contains(haystack@),
;

/// Cloning a `Regex` gives a pattern that matches the same texts.
pub assume_specification[ <regex::Regex as Clone>::clone ](re: &regex::Regex) -> (r: regex::Regex)
    ensures
        matched(r) == matched(*re),
;

} // verus!

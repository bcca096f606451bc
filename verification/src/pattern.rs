//! Searching a store key for the filename it ends in, with the `regex` crate.

use regex::Regex;
use vstd::prelude::*;

verus! {

/// Where a wheel's filename starts inside a store key: at the first run of
/// letters `a` to `z` in either case, digits and underscores that a `-` and
/// one more character follow. The match runs to the end of the line.
pub const FILENAME_PATTERN: &'static str = r"([a-zA-Z_\d]+)\-.+";

/// The error of `regex::Regex::new`. Nothing is read from it.
#[verifier::external_type_specification]
#[verifier::external_body]
pub struct ExRegexError(regex::Error);

/// Whether `regex::Regex::new` accepts a pattern with these characters.
pub uninterp spec fn pattern_compiles(pattern: Seq<char>) -> bool;

/// What `regex::Regex::find` returns for a compiled pattern and a haystack:
/// the text of the leftmost match, or `None` where nothing matches.
pub uninterp spec fn leftmost_match(pattern: Seq<char>, haystack: Seq<char>) -> Option<Seq<char>>;

/// The characters of an optional string.
pub open spec fn text_of(found: Option<String>) -> Option<Seq<char>> {
    match found {
        Some(text) => Some(text@),
        None => None,
    }
}

/// Compiles `pattern` with `regex::Regex::new` and searches `haystack` with
/// `Regex::find`, handing out the matched text (`Match::as_str`) as a string.
/// The contract names both results and states nothing else: when a pattern
/// compiles and what it matches is the regex engine's business.
#[verifier::external_body]
pub(crate) fn search(pattern: &str, haystack: &str) -> (found: Result<Option<String>, regex::Error>)
    ensures
        (found is Ok) == pattern_compiles(pattern@),
        found matches Ok(matched) ==> text_of(matched) == leftmost_match(pattern@, haystack@),
{
    match Regex::new(pattern) {
        Ok(re) => Ok(re.find(haystack).map(|m| m.as_str().to_string())),
        Err(e) => Err(e),
    }
}

/// The regex engine refused a pattern, so nothing could be searched with it.
#[derive(Debug, Clone, PartialEq, Eq)]
pub struct PatternError {}

/// The text of the leftmost match of `pattern` in `haystack`, `None` where
/// nothing matches, or the error where the regex engine refuses the pattern.
pub fn find_first(pattern: &str, haystack: &str) -> (found: Result<Option<String>, PatternError>)
    ensures
        (found is Ok) == pattern_compiles(pattern@),
        found matches Ok(matched) ==> text_of(matched) == leftmost_match(pattern@, haystack@),
{
    match search(pattern, haystack) {
        Ok(matched) => Ok(matched),
        Err(_) => Err(PatternError {}),
    }
}

/// The filename that `key` ends in, where the filename pattern finds one.
pub fn filename_in_key(key: &str) -> (found: Result<Option<String>, PatternError>)
    ensures
        (found is Ok) == pattern_compiles(FILENAME_PATTERN@),
        found matches Ok(file) ==> text_of(file) == leftmost_match(FILENAME_PATTERN@, key@),
{
    find_first(FILENAME_PATTERN, key)
}

} // verus!

//! The regular-expression engine, as far as the replacers lean on it.
//!
//! Matching and substitution are done by the `regex` crate. Nothing in this
//! module is proved: each function states what the crate's documentation
//! says of the call it makes, over a name for the call's result.

use regex::Regex;
use vstd::prelude::*;

verus! {

#[verifier::external_type_specification]
#[verifier::external_body]
pub struct ExRegex(regex::Regex);

#[verifier::external_type_specification]
#[verifier::external_body]
pub struct ExRegexError(regex::Error);

/// The text that `Regex::as_str` returns for a compiled pattern: the source
/// that the pattern was compiled from.
pub uninterp spec fn pattern_source(re: Regex) -> Seq<char>;

/// The text that `Regex::replace_all` returns for a compiled pattern, a
/// haystack and a replacement template: the haystack with every
/// non-overlapping match replaced by the expanded template.
pub uninterp spec fn substituted(re: Regex, text: Seq<char>, replacement: Seq<char>) -> Seq<char>;

/// What `Regex::is_match` returns for a compiled pattern and a haystack:
/// whether the pattern matches anywhere in it.
pub uninterp spec fn has_match(re: Regex, text: Seq<char>) -> bool;

/// Compiles the source of a pattern.
///
/// Calls `Regex::new`. Whether the source compiles is for the crate to say:
/// it refuses what does not parse and what would compile to more than its
/// size limit. The contract only says that a pattern that did compile keeps
/// its source, as the crate documents of `Regex::as_str`.
#[verifier::external_body]
pub(crate) fn compile(source: &str) -> (r: Result<Regex, regex::Error>)
    ensures
        r matches Ok(re) ==> pattern_source(re) == source@,
{
    Regex::new(source)
}

/// Replaces every non-overlapping match of `re` in `text`.
///
/// Calls `Regex::replace_all` with `replacement` as a template (so `$name`
/// and `$1` expand to capture groups) and copies the result into a fresh
/// string. The contract only names that result.
#[verifier::external_body]
pub(crate) fn substitute_all(re: &Regex, text: &str, replacement: &str) -> (out: String)
    ensures
        out@ == substituted(*re, text@, replacement@),
{
    re.replace_all(text, replacement).into_owned()
}

/// Tests whether `re` matches anywhere in `text`.
///
/// Calls `Regex::is_match`. The contract only names that result.
#[verifier::external_body]
pub(crate) fn is_match(re: &Regex, text: &str) -> (found: bool)
    ensures
        found == has_match(*re, text@),
{
    re.is_match(text)
}

} // verus!

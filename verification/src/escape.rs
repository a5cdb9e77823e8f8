//! Decoding of the replacement text that a user typed, and the check on
//! the pattern's source.

use vstd::prelude::*;

verus! {

/// The text that `unescape::unescape` returns for `raw`: `raw` with each
/// backslash escape replaced by the character it stands for, or `None`
/// where `raw` holds a backslash that starts no valid escape.
pub uninterp spec fn unescaped(raw: Seq<char>) -> Option<Seq<char>>;

/// The replacement text holds a backslash that starts no valid escape.
#[derive(Debug, Clone, Copy, PartialEq, Eq)]
pub struct InvalidEscape;

/// Decodes the backslash escapes of `raw`.
///
/// Calls `unescape::unescape`. The contract only names that result, and
/// says that the call fails exactly where the named result is `None`.
#[verifier::external_body]
fn unescape_text(raw: &str) -> (out: Option<String>)
    ensures
        match out {
            Some(text) => unescaped(raw@) == Some(text@),
            None => unescaped(raw@) is None,
        },
{
    unescape::unescape(raw)
}

/// The replacement template for the text that a user typed: its escapes
/// decoded, so that a typed backslash and `n` become a line separator.
pub fn decode_replacement(raw: &str) -> (r: Result<String, InvalidEscape>)
    ensures
        match r {
            Ok(text) => unescaped(raw@) == Some(text@),
            Err(_) => unescaped(raw@) is None,
        },
{
    match unescape_text(raw) {
        Some(text) => Ok(text),
        None => Err(InvalidEscape),
    }
}

/// Checks the source of a pattern before it is used. Every source passes:
/// a pattern that the regex engine compiles is taken as it is.
pub fn check_string(s: &str) -> (r: Result<(), String>)
    ensures
        r is Ok,
{
    Ok(())
}

} // verus!

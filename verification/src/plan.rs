//! What a run is made from: the compiled pattern, the decoded replacement
//! and the window size, worked out once from what the user typed.

use crate::engine::{compile, pattern_source};
use crate::escape::{decode_replacement, unescaped, InvalidEscape};
use crate::sizer::{newline_escape_count, window_size};
use regex::Regex;
use vstd::prelude::*;

verus! {

/// The settings of a run. They are made once and only read afterwards, so
/// that every file can be worked on with the same ones.
#[derive(Debug)]
pub struct Plan {
    /// The compiled search pattern.
    pub pattern: Regex,
    /// The replacement template, its escapes decoded.
    pub replacement: String,
    /// The window size: how many lines a match is taken to span at most.
    pub max_line_number: usize,
}

/// Why no run can be made from what the user typed.
#[derive(Debug)]
pub enum PlanError {
    /// The replacement holds a backslash that starts no valid escape.
    InvalidReplacement,
    /// The regex engine refused the pattern, for the reason it gives.
    InvalidPattern(regex::Error),
}

/// Puts a plan together from its parts, or says which part is missing. A
/// replacement that did not decode is reported first.
pub fn assemble(
    max_line_number: usize,
    replacement: Result<String, InvalidEscape>,
    pattern: Result<Regex, regex::Error>,
) -> (r: Result<Plan, PlanError>)
    ensures
        match (replacement, pattern) {
            (Err(_), _) => r == Err::<Plan, PlanError>(PlanError::InvalidReplacement),
            (Ok(_), Err(reason)) => r == Err::<Plan, PlanError>(PlanError::InvalidPattern(reason)),
            (Ok(text), Ok(re)) => r == Ok::<Plan, PlanError>(
                (Plan { pattern: re, replacement: text, max_line_number }),
            ),
        },
{
    match replacement {
        Err(_) => Err(PlanError::InvalidReplacement),
        Ok(text) => match pattern {
            Err(reason) => Err(PlanError::InvalidPattern(reason)),
            Ok(re) => Ok(Plan { pattern: re, replacement: text, max_line_number }),
        },
    }
}

/// Makes the plan for a pattern and a replacement as the user typed them:
/// sizes the window from the pattern's source, decodes the escapes of the
/// replacement and compiles the pattern.
pub fn prepare(pattern: &str, raw_replacement: &str) -> (r: Result<Plan, PlanError>)
    ensures
        unescaped(raw_replacement@) is None ==> r == Err::<Plan, PlanError>(
            PlanError::InvalidReplacement,
        ),
        unescaped(raw_replacement@) is Some ==> match r {
            Ok(plan) => {
                &&& pattern_source(plan.pattern) == pattern@
                &&& Some(plan.replacement@) == unescaped(raw_replacement@)
                &&& plan.max_line_number == newline_escape_count(pattern@) + 1
            },
            Err(reason) => reason is InvalidPattern,
        },
{
    assemble(window_size(pattern), decode_replacement(raw_replacement), compile(pattern))
}

} // verus!

//! Replacement over the whole content of a source: the ground truth, and
//! the pipeline that tries the windowed replacer first.

use crate::engine::{substitute_all, substituted};
use crate::text::{line_texts, split, split_lines};
use crate::window::{replace_in_file_line_by_line, windowed_output};
use regex::Regex;
use vstd::prelude::*;
use vstd::string::StrSliceExecFns;

verus! {

/// A line without the carriage return that may end it.
pub open spec fn strip_carriage_return(line: Seq<char>) -> Seq<char> {
    if line.len() > 0 && line.last() == '\r' {
        line.drop_last()
    } else {
        line
    }
}

/// The lines of a content, as line-oriented reading gives them: every
/// line feed ends a line, the line feed and a carriage return before it
/// are not part of the line, and what follows the last line feed is a line
/// of its own unless it is empty.
pub open spec fn source_lines(contents: Seq<char>) -> Seq<Seq<char>> {
    let pieces = split_lines(contents);
    let ended = Seq::new(
        (pieces.len() - 1) as nat,
        |i: int| strip_carriage_return(pieces[i]),
    );
    if pieces.last().len() == 0 {
        ended
    } else {
        ended.push(pieces.last())
    }
}

/// What the pipeline returns: the windowed output where no window fails,
/// else the substitution over the whole content.
pub open spec fn replaced_contents(
    re: Regex,
    replacement: Seq<char>,
    w: nat,
    contents: Seq<char>,
) -> Seq<char> {
    match windowed_output(re, replacement, w, source_lines(contents)) {
        Some(text) => text,
        None => substituted(re, contents, replacement),
    }
}

/// Drops the carriage return that may end a line.
fn without_carriage_return(line: String) -> (out: String)
    ensures
        out@ == strip_carriage_return(line@),
{
    let n = line.as_str().unicode_len();
    if n > 0 && line.as_str().get_char(n - 1) == '\r' {
        let kept = line.as_str().substring_char(0, n - 1).to_owned();
        assert(kept@ =~= line@.drop_last());
        kept
    } else {
        line
    }
}

/// Reads a content line by line.
pub fn read_source_lines(contents: &str) -> (lines: Vec<String>)
    ensures
        line_texts(lines@) == source_lines(contents@),
{
    let mut pieces = split(contents);
    proof {
        crate::text::lemma_split_nonempty(contents@);
    }
    let ghost all = line_texts(pieces@);
    let last = pieces.pop().unwrap();
    let mut lines: Vec<String> = Vec::new();
    let mut i: usize = 0;
    while i < pieces.len()
        invariant
            i <= pieces.len(),
            pieces.len() + 1 == all.len(),
            forall|k: int| 0 <= k < pieces.len() ==> pieces@[k]@ == all[k],
            lines.len() == i,
            forall|k: int| 0 <= k < i ==> lines@[k]@ == strip_carriage_return(all[k]),
        decreases pieces.len() - i,
    {
        lines.push(without_carriage_return(pieces[i].clone()));
        i += 1;
    }
    if last.as_str().unicode_len() > 0 {
        lines.push(last);
    }
    assert(line_texts(lines@) =~= source_lines(contents@));
    lines
}

/// Substitutes every match in the whole content at once.
pub fn replace_in_file_whole_file(contents: &str, re: &Regex, replacement: &str) -> (out: String)
    ensures
        out@ == substituted(*re, contents@, replacement@),
{
    substitute_all(re, contents, replacement)
}

/// Replaces in a content: first with the windowed replacer over its lines,
/// and where that gives up, over the whole content.
pub fn replace_in_file(contents: &str, re: &Regex, replacement: &str, max_line_number: usize) -> (out:
    String)
    ensures
        out@ == replaced_contents(*re, replacement@, max_line_number as nat, contents@),
{
    match replace_in_file_line_by_line(
        read_source_lines(contents),
        re,
        replacement,
        max_line_number,
    ) {
        Ok(text) => text,
        Err(_) => replace_in_file_whole_file(contents, re, replacement),
    }
}

} // verus!

//! The windowed line replacer: substitution over a sliding window of lines.
//!
//! A window is joined into one text, substituted as a whole and split into
//! lines again. All but the last `w` of those lines are confirmed and written
//! out; the rest is carried into the next window together with the next `w`
//! lines of the source. With `w == 1` nothing is carried over, so that no
//! line is ever substituted twice.

use crate::engine::{has_match, is_match, substitute_all, substituted};
use crate::reader::LineReader;
use crate::text::{
    join, join_lines, lemma_split_nonempty, line_texts, split, split_lines, terminate,
    terminate_lines,
};
use regex::Regex;
use vstd::prelude::*;
use vstd::string::StringExecFns;

verus! {

/// Why the windowed replacer gave up on a source.
#[derive(Debug, Clone, Copy, PartialEq, Eq)]
pub enum ReplaceError {
    /// The pattern still matches in a substituted window: the window cannot
    /// be trusted to hold every match whole.
    StructuralFailure,
}

/// What one window turned into.
pub struct WindowOutcome {
    /// Lines that are final: they go to the output, each one terminated.
    pub confirmed: Vec<String>,
    /// Lines that the next window starts with.
    pub pending: Vec<String>,
}

/// What to do once a window is done and the source was asked for more.
pub enum WindowStep {
    /// The source is exhausted: this text ends the output.
    Finished(String),
    /// The next window to substitute.
    Continue(Vec<String>),
}

/// How many lines the first window asks for.
pub open spec fn first_window_count(w: nat) -> nat {
    if w == 1 {
        1
    } else {
        2 * w
    }
}

/// The substituted text of a window.
pub open spec fn window_text(re: Regex, replacement: Seq<char>, buffer: Seq<Seq<char>>) -> Seq<
    char,
> {
    substituted(re, join_lines(buffer), replacement)
}

/// Whether a window is given up: only windows of several lines are
/// checked, and they fail where the pattern matches again in what the
/// substitution produced.
pub open spec fn window_fails(
    re: Regex,
    replacement: Seq<char>,
    w: nat,
    buffer: Seq<Seq<char>>,
) -> bool {
    w > 1 && has_match(re, window_text(re, replacement, buffer))
}

/// How many of a window's `count` substituted lines are confirmed: all of
/// them for `w == 1`, else all but the last `w`.
pub open spec fn confirmed_count(w: nat, count: nat) -> nat {
    if w == 1 {
        count
    } else if count > w {
        (count - w) as nat
    } else {
        0
    }
}

/// The lines of a substituted window that are final.
pub open spec fn confirmed_lines(
    re: Regex,
    replacement: Seq<char>,
    w: nat,
    buffer: Seq<Seq<char>>,
) -> Seq<Seq<char>> {
    let lines = split_lines(window_text(re, replacement, buffer));
    lines.take(confirmed_count(w, lines.len()) as int)
}

/// The lines of a substituted window that the next window starts with.
pub open spec fn pending_lines(
    re: Regex,
    replacement: Seq<char>,
    w: nat,
    buffer: Seq<Seq<char>>,
) -> Seq<Seq<char>> {
    let lines = split_lines(window_text(re, replacement, buffer));
    lines.skip(confirmed_count(w, lines.len()) as int)
}

/// The output from the window `buffer` onwards, with `rest` still unread,
/// or `None` where a window fails on the way.
pub open spec fn windowed_from(
    re: Regex,
    replacement: Seq<char>,
    w: nat,
    buffer: Seq<Seq<char>>,
    rest: Seq<Seq<char>>,
) -> Option<Seq<char>>
    decreases rest.len(),
{
    if window_fails(re, replacement, w, buffer) {
        None
    } else {
        let head = terminate_lines(confirmed_lines(re, replacement, w, buffer));
        let pending = pending_lines(re, replacement, w, buffer);
        if rest.len() == 0 || w == 0 {
            Some(head + join_lines(pending))
        } else {
            let n = vstd::math::min(w as int, rest.len() as int);
            match windowed_from(re, replacement, w, pending + rest.take(n), rest.skip(n)) {
                Some(tail) => Some(head + tail),
                None => None,
            }
        }
    }
}

/// The output of the windowed replacer on a source of `lines`, or `None`
/// where a window fails.
pub open spec fn windowed_output(
    re: Regex,
    replacement: Seq<char>,
    w: nat,
    lines: Seq<Seq<char>>,
) -> Option<Seq<char>> {
    let n = vstd::math::min(first_window_count(w) as int, lines.len() as int);
    if n == 0 {
        Some(Seq::empty())
    } else {
        windowed_from(re, replacement, w, lines.take(n), lines.skip(n))
    }
}

/// `text` put in front of an output, where there is one.
pub open spec fn prefixed(text: Seq<char>, output: Option<Seq<char>>) -> Option<Seq<char>> {
    match output {
        Some(tail) => Some(text + tail),
        None => None,
    }
}

/// The confirmed and the pending lines of a window are together the lines
/// of its substituted text. A window of several lines always keeps at least
/// one line pending, a window of one line none.
pub proof fn lemma_window_parts(
    re: Regex,
    replacement: Seq<char>,
    w: nat,
    buffer: Seq<Seq<char>>,
)
    ensures
        confirmed_lines(re, replacement, w, buffer) + pending_lines(re, replacement, w, buffer)
            == split_lines(window_text(re, replacement, buffer)),
        w > 1 ==> pending_lines(re, replacement, w, buffer).len() >= 1,
        w <= 1 ==> pending_lines(re, replacement, w, buffer).len() == 0,
{
    let lines = split_lines(window_text(re, replacement, buffer));
    lemma_split_nonempty(window_text(re, replacement, buffer));
    let k = confirmed_count(w, lines.len()) as int;
    assert(lines.take(k) + lines.skip(k) =~= lines);
}

/// The line buffer stays bounded: a window keeps at most `w` lines pending,
/// so with at most `w` lines read after it the next window holds no more
/// lines than the first window asks for.
pub proof fn lemma_next_window_bounded(
    re: Regex,
    replacement: Seq<char>,
    w: nat,
    buffer: Seq<Seq<char>>,
    next: Seq<Seq<char>>,
)
    requires
        w >= 1,
        next.len() <= w,
    ensures
        (pending_lines(re, replacement, w, buffer) + next).len() <= first_window_count(w),
{
    lemma_window_parts(re, replacement, w, buffer);
}

impl ReplaceError {
    /// The error in words.
    pub fn message(&self) -> (text: String)
        ensures
            text@ == "Cross-line match found, please use the whole file replacement method"@,
    {
        String::from_str("Cross-line match found, please use the whole file replacement method")
    }
}

/// How many lines to ask the source for before the first window: one for
/// `w == 1`, else twice `w`, or as many as can be counted where twice `w`
/// cannot.
pub fn first_window_len(w: usize) -> (n: usize)
    ensures
        n == vstd::math::min(first_window_count(w as nat) as int, usize::MAX as int),
{
    if w == 1 {
        1
    } else if w > usize::MAX / 2 {
        usize::MAX
    } else {
        2 * w
    }
}

/// Parts the lines of a substituted window into those that are final and
/// those that the next window starts with: with `w == 1` every line is
/// final, else all but the last `w`.
pub fn part_window(replaced: &str, w: usize) -> (outcome: WindowOutcome)
    ensures
        line_texts(outcome.confirmed@) == split_lines(replaced@).take(
            confirmed_count(w as nat, split_lines(replaced@).len()) as int,
        ),
        line_texts(outcome.pending@) == split_lines(replaced@).skip(
            confirmed_count(w as nat, split_lines(replaced@).len()) as int,
        ),
{
    let mut confirmed = split(replaced);
    let ghost lines = line_texts(confirmed@);
    let count = confirmed.len();
    let keep: usize = if w == 1 {
        count
    } else if count > w {
        count - w
    } else {
        0
    };
    let pending = confirmed.split_off(keep);
    assert(line_texts(confirmed@) =~= lines.take(keep as int));
    assert(line_texts(pending@) =~= lines.skip(keep as int));
    WindowOutcome { confirmed, pending }
}

/// Substitutes one window and parts its lines into confirmed and pending,
/// or gives the window up where it spans several lines and the pattern
/// matches again in its substituted text.
pub fn replace_window(buffer: &Vec<String>, re: &Regex, replacement: &str, w: usize) -> (r: Result<
    WindowOutcome,
    ReplaceError,
>)
    ensures
        window_fails(*re, replacement@, w as nat, line_texts(buffer@)) <==> r is Err,
        r matches Ok(outcome) ==> {
            &&& line_texts(outcome.confirmed@) == confirmed_lines(
                *re,
                replacement@,
                w as nat,
                line_texts(buffer@),
            )
            &&& line_texts(outcome.pending@) == pending_lines(
                *re,
                replacement@,
                w as nat,
                line_texts(buffer@),
            )
        },
        r matches Err(e) ==> e == ReplaceError::StructuralFailure,
{
    let blob = join(buffer);
    let replaced = substitute_all(re, blob.as_str(), replacement);
    if w > 1 && is_match(re, replaced.as_str()) {
        return Err(ReplaceError::StructuralFailure);
    }
    Ok(part_window(replaced.as_str(), w))
}

/// Decides what follows a window, from its pending lines and the lines
/// that the source gave next: with no more lines the pending ones end the
/// output, joined and without a separator after the last; else they open
/// the next window.
pub fn advance(pending: Vec<String>, next: Vec<String>) -> (step: WindowStep)
    ensures
        next.len() == 0 ==> (step matches WindowStep::Finished(tail) && tail@ == join_lines(
            line_texts(pending@),
        )),
        next.len() > 0 ==> (step matches WindowStep::Continue(buffer) && line_texts(buffer@)
            == line_texts(pending@) + line_texts(next@)),
{
    if next.len() == 0 {
        WindowStep::Finished(join(&pending))
    } else {
        let mut buffer = pending;
        let mut next = next;
        let ghost head = line_texts(buffer@);
        let ghost tail = line_texts(next@);
        buffer.append(&mut next);
        assert(line_texts(buffer@) =~= head + tail);
        WindowStep::Continue(buffer)
    }
}

/// Runs the windowed replacer over the lines of a source and returns the
/// whole output, or the structural failure of the first window that fails.
#[verifier::loop_isolation(false)]
pub fn replace_in_file_line_by_line(
    lines: Vec<String>,
    re: &Regex,
    replacement: &str,
    max_line_number: usize,
) -> (r: Result<String, ReplaceError>)
    ensures
        match windowed_output(*re, replacement@, max_line_number as nat, line_texts(lines@)) {
            Some(text) => r matches Ok(out) && out@ == text,
            None => r == Err::<String, ReplaceError>(ReplaceError::StructuralFailure),
        },
{
    let w = max_line_number;
    let ghost source = line_texts(lines@);
    let ghost total = windowed_output(*re, replacement@, w as nat, source);
    let ghost n = vstd::math::min(first_window_count(w as nat) as int, source.len() as int);
    assert(source.len() == lines.len() <= usize::MAX);
    let mut reader = LineReader::new(lines);
    let mut out = String::new();
    let mut buffer = reader.read_lines(first_window_len(w));
    assert(line_texts(buffer@) == source.take(n));
    assert(reader.remaining() == source.skip(n));
    if buffer.len() == 0 {
        return Ok(out);
    }
    assert(total == prefixed(
        out@,
        windowed_from(*re, replacement@, w as nat, line_texts(buffer@), reader.remaining()),
    )) by {
        let tail = windowed_from(
            *re,
            replacement@,
            w as nat,
            line_texts(buffer@),
            reader.remaining(),
        );
        if tail is Some {
            assert(out@ + tail->0 =~= tail->0);
        }
    }
    loop
        invariant
            w >= 1,
            0 < buffer.len() <= first_window_count(w as nat),
            total == windowed_output(*re, replacement@, w as nat, source),
            total == prefixed(
                out@,
                windowed_from(*re, replacement@, w as nat, line_texts(buffer@), reader.remaining()),
            ),
        decreases reader.remaining().len(),
    {
        let ghost before = out@;
        let ghost window = line_texts(buffer@);
        let ghost rest = reader.remaining();
        match replace_window(&buffer, re, replacement, w) {
            Err(e) => {
                return Err(e);
            },
            Ok(outcome) => {
                let head = terminate(&outcome.confirmed);
                out.append(head.as_str());
                let next = reader.read_lines(w);
                let ghost pending = line_texts(outcome.pending@);
                match advance(outcome.pending, next) {
                    WindowStep::Finished(tail) => {
                        out.append(tail.as_str());
                        assert(out@ =~= before + (head@ + tail@));
                        return Ok(out);
                    },
                    WindowStep::Continue(following) => {
                        buffer = following;
                        proof {
                            let n = vstd::math::min(w as int, rest.len() as int);
                            lemma_next_window_bounded(
                                *re,
                                replacement@,
                                w as nat,
                                window,
                                rest.take(n),
                            );
                            let tail = windowed_from(
                                *re,
                                replacement@,
                                w as nat,
                                pending + rest.take(n),
                                rest.skip(n),
                            );
                            if tail is Some {
                                assert(out@ + tail->0 =~= before + (head@ + tail->0));
                            }
                        }
                    },
                }
            },
        }
    }
}

} // verus!

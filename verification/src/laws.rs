//! What holds of the windowed replacer as a whole: when its output is the
//! substitution over the whole content, and what it does at the end of a
//! source.

use crate::engine::{has_match, substituted};
use crate::replace::{replaced_contents, source_lines, strip_carriage_return};
use crate::text::{
    join_lines, lemma_join_split, lemma_split_nonempty, lemma_terminate_as_join,
    lemma_terminate_concat, lemma_terminate_then_join, separator, split_lines, terminate_lines,
};
use crate::window::{
    confirmed_lines, first_window_count, lemma_window_parts, pending_lines, window_fails,
    window_text, windowed_from, windowed_output,
};
use regex::Regex;
use vstd::prelude::*;

verus! {

/// The content that a run over `lines` stands for. Windows of one line
/// write every line terminated, so they stand for a content whose last
/// line is terminated too; windows of several lines write their last lines
/// without a separator after them, and stand for a content that ends with
/// its last line.
pub open spec fn source_text(w: nat, lines: Seq<Seq<char>>) -> Seq<char> {
    if w == 1 {
        terminate_lines(lines)
    } else {
        join_lines(lines)
    }
}

/// The window assumption along one run: for every window that the run
/// meets, substituting the content from that window onwards gives the
/// lines that the window confirms, followed by the substitution of the
/// content from its pending lines onwards. A window that fails ends the
/// run, and asks nothing; nor does the last window of several lines, whose
/// lines are written out as they are.
pub open spec fn window_assumption(
    re: Regex,
    replacement: Seq<char>,
    w: nat,
    buffer: Seq<Seq<char>>,
    rest: Seq<Seq<char>>,
) -> bool
    decreases rest.len(),
{
    window_fails(re, replacement, w, buffer) || {
        let confirmed = confirmed_lines(re, replacement, w, buffer);
        let pending = pending_lines(re, replacement, w, buffer);
        if rest.len() == 0 || w == 0 {
            w > 1 || substituted(re, source_text(w, buffer), replacement) == terminate_lines(
                confirmed,
            )
        } else {
            let n = vstd::math::min(w as int, rest.len() as int);
            &&& substituted(re, source_text(w, buffer + rest), replacement) == terminate_lines(
                confirmed,
            ) + substituted(re, source_text(w, pending + rest), replacement)
            &&& window_assumption(re, replacement, w, pending + rest.take(n), rest.skip(n))
        }
    }
}

/// The window assumption for a whole source of `lines`.
pub open spec fn respects_window(
    re: Regex,
    replacement: Seq<char>,
    w: nat,
    lines: Seq<Seq<char>>,
) -> bool {
    let n = vstd::math::min(first_window_count(w) as int, lines.len() as int);
    window_assumption(re, replacement, w, lines.take(n), lines.skip(n))
}

/// Every line substituted on its own and terminated.
pub open spec fn substituted_line_by_line(
    re: Regex,
    replacement: Seq<char>,
    lines: Seq<Seq<char>>,
) -> Seq<char>
    decreases lines.len(),
{
    if lines.len() == 0 {
        Seq::empty()
    } else {
        substituted(re, lines[0], replacement).push(separator()) + substituted_line_by_line(
            re,
            replacement,
            lines.skip(1),
        )
    }
}

/// What a window writes in all, once its pending lines end the output, is
/// its substituted text: with a separator after it where nothing is kept
/// pending, as it is for windows of several lines.
pub proof fn lemma_last_window(re: Regex, replacement: Seq<char>, w: nat, buffer: Seq<Seq<char>>)
    ensures
        terminate_lines(confirmed_lines(re, replacement, w, buffer)) + join_lines(
            pending_lines(re, replacement, w, buffer),
        ) == if w <= 1 {
            window_text(re, replacement, buffer).push(separator())
        } else {
            window_text(re, replacement, buffer)
        },
{
    let text = window_text(re, replacement, buffer);
    let confirmed = confirmed_lines(re, replacement, w, buffer);
    let pending = pending_lines(re, replacement, w, buffer);
    lemma_window_parts(re, replacement, w, buffer);
    lemma_split_nonempty(text);
    lemma_join_split(text);
    if w <= 1 {
        assert(confirmed =~= split_lines(text));
        lemma_terminate_as_join(confirmed);
        assert(pending =~= Seq::<Seq<char>>::empty());
        assert(terminate_lines(confirmed) + join_lines(pending) =~= text.push(separator()));
    } else {
        lemma_terminate_then_join(confirmed, pending);
    }
}

/// From any window onwards: where the run respects the window assumption
/// and no window fails, the output is the substitution of the content from
/// that window onwards.
pub proof fn lemma_windowed_from_equals_whole(
    re: Regex,
    replacement: Seq<char>,
    w: nat,
    buffer: Seq<Seq<char>>,
    rest: Seq<Seq<char>>,
)
    requires
        w >= 1,
        window_assumption(re, replacement, w, buffer, rest),
        windowed_from(re, replacement, w, buffer, rest) is Some,
    ensures
        windowed_from(re, replacement, w, buffer, rest) == Some(
            substituted(re, source_text(w, buffer + rest), replacement),
        ),
    decreases rest.len(),
{
    let pending = pending_lines(re, replacement, w, buffer);
    if rest.len() == 0 {
        assert(buffer + rest =~= buffer);
        lemma_last_window(re, replacement, w, buffer);
        lemma_window_parts(re, replacement, w, buffer);
        if w == 1 {
            assert(pending =~= Seq::<Seq<char>>::empty());
            let head = terminate_lines(confirmed_lines(re, replacement, w, buffer));
            assert(head + join_lines(pending) =~= head);
        }
    } else {
        let n = vstd::math::min(w as int, rest.len() as int);
        lemma_windowed_from_equals_whole(
            re,
            replacement,
            w,
            pending + rest.take(n),
            rest.skip(n),
        );
        assert((pending + rest.take(n)) + rest.skip(n) =~= pending + rest);
    }
}

/// Equivalence. For a source of at least one line: where the run respects
/// the window assumption and no window fails, the windowed output is the
/// substitution over the whole content at once.
pub proof fn lemma_windowed_equals_whole(
    re: Regex,
    replacement: Seq<char>,
    w: nat,
    lines: Seq<Seq<char>>,
)
    requires
        w >= 1,
        lines.len() >= 1,
        respects_window(re, replacement, w, lines),
        windowed_output(re, replacement, w, lines) is Some,
    ensures
        windowed_output(re, replacement, w, lines) == Some(
            substituted(re, source_text(w, lines), replacement),
        ),
{
    let n = vstd::math::min(first_window_count(w) as int, lines.len() as int);
    lemma_windowed_from_equals_whole(re, replacement, w, lines.take(n), lines.skip(n));
    assert(lines.take(n) + lines.skip(n) =~= lines);
}

/// From any window of one line onwards, the output is that line and every
/// later line, each substituted on its own and terminated.
pub proof fn lemma_single_line_from(
    re: Regex,
    replacement: Seq<char>,
    line: Seq<char>,
    rest: Seq<Seq<char>>,
)
    ensures
        windowed_from(re, replacement, 1, seq![line], rest) == Some(
            substituted_line_by_line(re, replacement, seq![line] + rest),
        ),
    decreases rest.len(),
{
    let buffer = seq![line];
    let all = buffer + rest;
    lemma_last_window(re, replacement, 1, buffer);
    lemma_window_parts(re, replacement, 1, buffer);
    let confirmed = confirmed_lines(re, replacement, 1, buffer);
    let pending = pending_lines(re, replacement, 1, buffer);
    assert(pending =~= Seq::<Seq<char>>::empty());
    let head = terminate_lines(confirmed);
    assert(head =~= head + join_lines(pending));
    assert(head == substituted(re, line, replacement).push(separator()));
    assert(all[0] == line);
    assert(all.skip(1) =~= rest);
    if rest.len() == 0 {
        assert(substituted_line_by_line(re, replacement, rest) =~= Seq::<char>::empty());
        assert(head + substituted_line_by_line(re, replacement, rest) =~= head);
    } else {
        lemma_single_line_from(re, replacement, rest[0], rest.skip(1));
        assert(pending + rest.take(1) =~= seq![rest[0]]);
        assert(seq![rest[0]] + rest.skip(1) =~= rest);
    }
}

/// No double substitution. With windows of one line, every line of the
/// source is substituted exactly once, on its own, and written with one
/// separator after it; no window fails.
pub proof fn lemma_single_line_output(re: Regex, replacement: Seq<char>, lines: Seq<Seq<char>>)
    ensures
        windowed_output(re, replacement, 1, lines) == Some(
            substituted_line_by_line(re, replacement, lines),
        ),
{
    if lines.len() > 0 {
        lemma_single_line_from(re, replacement, lines[0], lines.skip(1));
        assert(lines.take(1) =~= seq![lines[0]]);
        assert(seq![lines[0]] + lines.skip(1) =~= lines);
    }
}

/// From any window onwards: where the pattern matches in no text and
/// the substitution changes no text, the output is the content from that
/// window onwards.
pub proof fn lemma_untouched_from(
    re: Regex,
    replacement: Seq<char>,
    w: nat,
    buffer: Seq<Seq<char>>,
    rest: Seq<Seq<char>>,
)
    requires
        w >= 1,
        buffer.len() >= 1,
        forall|text: Seq<char>| !#[trigger] has_match(re, text),
        forall|text: Seq<char>| #[trigger] substituted(re, text, replacement) == text,
    ensures
        windowed_from(re, replacement, w, buffer, rest) == Some(source_text(w, buffer + rest)),
    decreases rest.len(),
{
    let confirmed = confirmed_lines(re, replacement, w, buffer);
    let pending = pending_lines(re, replacement, w, buffer);
    let pieces = split_lines(join_lines(buffer));
    let head = terminate_lines(confirmed);
    assert(window_text(re, replacement, buffer) == join_lines(buffer));
    lemma_last_window(re, replacement, w, buffer);
    lemma_window_parts(re, replacement, w, buffer);
    lemma_split_nonempty(join_lines(buffer));
    lemma_join_split(join_lines(buffer));
    lemma_terminate_as_join(buffer);
    lemma_terminate_as_join(pieces);
    if rest.len() == 0 {
        assert(buffer + rest =~= buffer);
    } else {
        let n = vstd::math::min(w as int, rest.len() as int);
        let next = pending + rest.take(n);
        lemma_untouched_from(re, replacement, w, next, rest.skip(n));
        assert(next + rest.skip(n) =~= pending + rest);
        assert(confirmed + (pending + rest) =~= pieces + rest);
        if w == 1 {
            assert(pending + rest =~= rest);
            assert(confirmed =~= pieces);
            lemma_terminate_concat(buffer, rest);
        } else {
            lemma_terminate_then_join(confirmed, pending + rest);
            lemma_terminate_then_join(pieces, rest);
            lemma_terminate_then_join(buffer, rest);
        }
    }
}

/// End-of-source exactness. Where the pattern matches in no text and the
/// substitution changes no text, the output is the content itself: no
/// separator is invented after the last line of a run with windows of
/// several lines, and the one after the last line of a run with windows of
/// one line is kept once.
pub proof fn lemma_untouched_source_is_kept(
    re: Regex,
    replacement: Seq<char>,
    w: nat,
    lines: Seq<Seq<char>>,
)
    requires
        w >= 1,
        lines.len() >= 1,
        forall|text: Seq<char>| !#[trigger] has_match(re, text),
        forall|text: Seq<char>| #[trigger] substituted(re, text, replacement) == text,
    ensures
        windowed_output(re, replacement, w, lines) == Some(source_text(w, lines)),
{
    let n = vstd::math::min(first_window_count(w) as int, lines.len() as int);
    lemma_untouched_from(re, replacement, w, lines.take(n), lines.skip(n));
    assert(lines.take(n) + lines.skip(n) =~= lines);
}

/// Whether no line feed of the content follows a carriage return.
pub open spec fn crlf_free(contents: Seq<char>) -> bool {
    forall|i: int|
        0 <= i < contents.len() - 1 ==> !(#[trigger] contents[i] == '\r' && contents[i + 1]
            == separator())
}

/// In a content where no line feed follows a carriage return, no piece
/// but the last can end in a carriage return, and the last does so only
/// where the content does.
pub proof fn lemma_pieces_keep_their_ends(contents: Seq<char>)
    requires
        crlf_free(contents),
    ensures
        forall|k: int|
            0 <= k < split_lines(contents).len() - 1 ==> strip_carriage_return(
                #[trigger] split_lines(contents)[k],
            ) == split_lines(contents)[k],
        split_lines(contents).len() >= 1,
        split_lines(contents).last().len() > 0 ==> contents.len() > 0 && contents.last()
            == split_lines(contents).last().last(),
        contents.len() > 0 && contents.last() != separator() ==> split_lines(
            contents,
        ).last().len() > 0,
        contents.len() > 0 && contents.last() == separator() ==> split_lines(
            contents,
        ).last().len() == 0,
    decreases contents.len(),
{
    if contents.len() > 0 {
        let shorter = contents.drop_last();
        assert(crlf_free(shorter)) by {
            assert forall|i: int| 0 <= i < shorter.len() - 1 implies !(#[trigger] shorter[i]
                == '\r' && shorter[i + 1] == separator()) by {
                assert(shorter[i] == contents[i]);
                assert(shorter[i + 1] == contents[i + 1]);
            }
        }
        lemma_pieces_keep_their_ends(shorter);
        let before = split_lines(shorter);
        if contents.last() == separator() {
            if before.last().len() > 0 {
                let at = contents.len() - 2;
                assert(contents[at] == shorter.last());
                assert(contents[at + 1] == separator());
            }
        }
    }
}

/// A content that ends with a separator, and in which no line feed
/// follows a carriage return, is its lines, each terminated.
pub proof fn lemma_terminated_contents(contents: Seq<char>)
    requires
        contents.len() >= 1,
        contents.last() == separator(),
        crlf_free(contents),
    ensures
        source_lines(contents).len() >= 1,
        terminate_lines(source_lines(contents)) == contents,
{
    let pieces = split_lines(contents);
    lemma_pieces_keep_their_ends(contents);
    lemma_split_nonempty(contents.drop_last());
    lemma_join_split(contents);
    assert(source_lines(contents) =~= pieces.drop_last());
    lemma_terminate_as_join(pieces.drop_last());
    assert(join_lines(pieces) =~= join_lines(pieces.drop_last()).push(separator()));
}

/// A content that does not end with a separator, and in which no line
/// feed follows a carriage return, is its lines, joined.
pub proof fn lemma_unterminated_contents(contents: Seq<char>)
    requires
        contents.len() >= 1,
        contents.last() != separator(),
        crlf_free(contents),
    ensures
        source_lines(contents).len() >= 1,
        join_lines(source_lines(contents)) == contents,
{
    let pieces = split_lines(contents);
    lemma_pieces_keep_their_ends(contents);
    lemma_join_split(contents);
    assert(source_lines(contents) =~= pieces);
}

/// Whether a content is one that a run with windows of size `w` stands
/// for: not empty, without a line feed after a carriage return, and ending
/// with a separator exactly where the windows hold one line.
pub open spec fn fits_window(w: nat, contents: Seq<char>) -> bool {
    &&& contents.len() >= 1
    &&& crlf_free(contents)
    &&& (w == 1 <==> contents.last() == separator())
}

/// Equivalence, for the pipeline. On a content that fits the window size
/// and whose run respects the window assumption, replacing gives the
/// substitution over the whole content: from the windowed replacer where
/// no window fails, and from the fallback where one does.
pub proof fn lemma_replaced_contents_equals_whole(
    re: Regex,
    replacement: Seq<char>,
    w: nat,
    contents: Seq<char>,
)
    requires
        w >= 1,
        fits_window(w, contents),
        respects_window(re, replacement, w, source_lines(contents)),
    ensures
        replaced_contents(re, replacement, w, contents) == substituted(
            re,
            contents,
            replacement,
        ),
{
    let lines = source_lines(contents);
    if w == 1 {
        lemma_terminated_contents(contents);
    } else {
        lemma_unterminated_contents(contents);
    }
    if windowed_output(re, replacement, w, lines) is Some {
        lemma_windowed_equals_whole(re, replacement, w, lines);
    }
}

/// Fallback. Where a window fails, replacing gives the substitution over
/// the whole content, whatever the content and the window size.
pub proof fn lemma_failed_window_falls_back(
    re: Regex,
    replacement: Seq<char>,
    w: nat,
    contents: Seq<char>,
)
    requires
        windowed_output(re, replacement, w, source_lines(contents)) is None,
    ensures
        replaced_contents(re, replacement, w, contents) == substituted(
            re,
            contents,
            replacement,
        ),
{
}

/// End-of-source exactness, for the pipeline. On a content that fits the
/// window size, a pattern that matches in no text and changes no text
/// leaves the content as it is, its end included.
pub proof fn lemma_untouched_contents_are_kept(
    re: Regex,
    replacement: Seq<char>,
    w: nat,
    contents: Seq<char>,
)
    requires
        w >= 1,
        fits_window(w, contents),
        forall|text: Seq<char>| !#[trigger] has_match(re, text),
        forall|text: Seq<char>| #[trigger] substituted(re, text, replacement) == text,
    ensures
        replaced_contents(re, replacement, w, contents) == contents,
{
    let lines = source_lines(contents);
    if w == 1 {
        lemma_terminated_contents(contents);
    } else {
        lemma_unterminated_contents(contents);
    }
    lemma_untouched_source_is_kept(re, replacement, w, lines);
}

} // verus!

//! Text as a sequence of lines: joining, splitting and the two ways of
//! writing lines out (separated, or each one terminated).

use vstd::prelude::*;
use vstd::std_specs::iter::IteratorSpec;
use vstd::string::StringExecFns;

verus! {

/// The character that separates two lines.
pub open spec fn separator() -> char {
    '\n'
}

/// The text of each string, in order.
pub open spec fn line_texts(lines: Seq<String>) -> Seq<Seq<char>> {
    Seq::new(lines.len(), |i: int| lines[i]@)
}

/// The lines with one separator between each two neighbours and none after
/// the last.
pub open spec fn join_lines(lines: Seq<Seq<char>>) -> Seq<char>
    decreases lines.len(),
{
    if lines.len() == 0 {
        Seq::empty()
    } else if lines.len() == 1 {
        lines[0]
    } else {
        join_lines(lines.drop_last()).push(separator()) + lines.last()
    }
}

/// The lines with one separator after each of them, the last included.
pub open spec fn terminate_lines(lines: Seq<Seq<char>>) -> Seq<char>
    decreases lines.len(),
{
    if lines.len() == 0 {
        Seq::empty()
    } else {
        terminate_lines(lines.drop_last()) + lines.last().push(separator())
    }
}

/// The pieces of `text` between its separators. There is always at least one
/// piece: a text without separator is its own single piece, and a text that
/// ends in a separator has an empty last piece.
pub open spec fn split_lines(text: Seq<char>) -> Seq<Seq<char>>
    decreases text.len(),
{
    if text.len() == 0 {
        seq![Seq::empty()]
    } else {
        let before = split_lines(text.drop_last());
        if text.last() == separator() {
            before.push(Seq::empty())
        } else {
            before.update(before.len() - 1, before.last().push(text.last()))
        }
    }
}

/// Whether no line holds a separator.
pub open spec fn separator_free(lines: Seq<Seq<char>>) -> bool {
    forall|i: int, j: int|
        0 <= i < lines.len() && 0 <= j < lines[i].len() ==> #[trigger] lines[i][j] != separator()
}

/// Splitting always yields at least one piece.
pub proof fn lemma_split_nonempty(text: Seq<char>)
    ensures
        split_lines(text).len() >= 1,
    decreases text.len(),
{
    if text.len() > 0 {
        lemma_split_nonempty(text.drop_last());
    }
}

/// No piece of a split text holds a separator.
pub proof fn lemma_split_separator_free(text: Seq<char>)
    ensures
        separator_free(split_lines(text)),
    decreases text.len(),
{
    if text.len() > 0 {
        lemma_split_nonempty(text.drop_last());
        lemma_split_separator_free(text.drop_last());
    }
}

/// Joining the pieces of a text gives the text back.
pub proof fn lemma_join_split(text: Seq<char>)
    ensures
        join_lines(split_lines(text)) == text,
    decreases text.len(),
{
    if text.len() > 0 {
        let shorter = text.drop_last();
        let before = split_lines(shorter);
        lemma_split_nonempty(shorter);
        lemma_join_split(shorter);
        if text.last() == separator() {
            let after = before.push(Seq::empty());
            assert(after.drop_last() =~= before);
            assert(join_lines(after) =~= join_lines(before).push(separator()));
        } else {
            let grown = before.last().push(text.last());
            let after = before.update(before.len() - 1, grown);
            if before.len() == 1 {
                assert(join_lines(after) =~= shorter.push(text.last()));
            } else {
                assert(after.drop_last() =~= before.drop_last());
                assert(join_lines(after) =~= join_lines(before).push(text.last()));
            }
        }
        assert(shorter.push(text.last()) =~= text);
    }
}

/// Splitting a join of separator-free lines gives the lines back, as long
/// as there is at least one line.
pub proof fn lemma_split_join(lines: Seq<Seq<char>>)
    requires
        lines.len() >= 1,
        separator_free(lines),
    ensures
        split_lines(join_lines(lines)) == lines,
    decreases lines.len(),
{
    if lines.len() == 1 {
        lemma_split_plain(lines[0]);
        assert(seq![lines[0]] =~= lines);
    } else {
        let head = lines.drop_last();
        lemma_split_join(head);
        let stem = join_lines(head).push(separator());
        assert(stem.drop_last() =~= join_lines(head));
        assert(split_lines(stem) == head.push(Seq::empty()));
        lemma_split_extend(stem, lines.last());
        assert(head.push(Seq::empty()).update(head.len() as int, lines.last()) =~= lines);
    }
}

/// A text without separator is its own single piece.
pub proof fn lemma_split_plain(line: Seq<char>)
    requires
        forall|j: int| 0 <= j < line.len() ==> line[j] != separator(),
    ensures
        split_lines(line) == seq![line],
    decreases line.len(),
{
    if line.len() == 0 {
        assert(line =~= Seq::<char>::empty());
    } else {
        lemma_split_plain(line.drop_last());
        assert(line.drop_last().push(line.last()) =~= line);
        assert(seq![line.drop_last()].update(0, line) =~= seq![line]);
    }
}

/// Appending separator-free characters to a text only grows its last piece.
pub proof fn lemma_split_extend(text: Seq<char>, tail: Seq<char>)
    requires
        forall|j: int| 0 <= j < tail.len() ==> tail[j] != separator(),
    ensures
        split_lines(text + tail) == split_lines(text).update(
            split_lines(text).len() - 1,
            split_lines(text).last() + tail,
        ),
    decreases tail.len(),
{
    lemma_split_nonempty(text);
    let pieces = split_lines(text);
    if tail.len() == 0 {
        assert(text + tail =~= text);
        assert(pieces.last() + tail =~= pieces.last());
        assert(pieces.update(pieces.len() - 1, pieces.last()) =~= pieces);
    } else {
        let shorter = tail.drop_last();
        lemma_split_extend(text, shorter);
        assert((text + tail).drop_last() =~= text + shorter);
        assert((pieces.last() + shorter).push(tail.last()) =~= pieces.last() + tail);
        let mid = pieces.update(pieces.len() - 1, pieces.last() + shorter);
        assert(mid.update(mid.len() - 1, mid.last().push(tail.last())) =~= pieces.update(
            pieces.len() - 1,
            pieces.last() + tail,
        ));
    }
}

/// Terminating every line adds exactly one separator to their join.
pub proof fn lemma_terminate_as_join(lines: Seq<Seq<char>>)
    requires
        lines.len() >= 1,
    ensures
        terminate_lines(lines) == join_lines(lines).push(separator()),
    decreases lines.len(),
{
    if lines.len() == 1 {
        assert(terminate_lines(lines.drop_last()) =~= Seq::<char>::empty());
        assert(terminate_lines(lines) =~= lines[0].push(separator()));
    } else {
        lemma_terminate_as_join(lines.drop_last());
        assert(terminate_lines(lines) =~= join_lines(lines).push(separator()));
    }
}

/// Terminated lines followed by joined lines read as one join.
pub proof fn lemma_terminate_then_join(head: Seq<Seq<char>>, tail: Seq<Seq<char>>)
    requires
        tail.len() >= 1,
    ensures
        terminate_lines(head) + join_lines(tail) == join_lines(head + tail),
    decreases tail.len(),
{
    if tail.len() == 1 {
        assert((head + tail).drop_last() =~= head);
        if head.len() == 0 {
            assert(head + tail =~= tail);
            assert(terminate_lines(head) + join_lines(tail) =~= join_lines(tail));
        } else {
            lemma_terminate_as_join(head);
            assert(terminate_lines(head) + join_lines(tail) =~= join_lines(head + tail));
        }
    } else {
        lemma_terminate_then_join(head, tail.drop_last());
        assert((head + tail).drop_last() =~= head + tail.drop_last());
        assert(terminate_lines(head) + join_lines(tail) =~= join_lines(head + tail));
    }
}

/// Terminating a concatenation terminates each part.
pub proof fn lemma_terminate_concat(head: Seq<Seq<char>>, tail: Seq<Seq<char>>)
    ensures
        terminate_lines(head + tail) == terminate_lines(head) + terminate_lines(tail),
    decreases tail.len(),
{
    if tail.len() == 0 {
        assert(head + tail =~= head);
        assert(terminate_lines(head) + terminate_lines(tail) =~= terminate_lines(head));
    } else {
        lemma_terminate_concat(head, tail.drop_last());
        assert((head + tail).drop_last() =~= head + tail.drop_last());
        assert(terminate_lines(head + tail) =~= terminate_lines(head) + terminate_lines(tail));
    }
}

/// Appends one character to a string.
///
/// Stands for `String::push` of the standard library: the string afterwards
/// is the string before with `c` as its new last character.
#[verifier::external_body]
fn push_char(s: &mut String, c: char)
    ensures
        final(s)@ == old(s)@.push(c),
{
    s.push(c)
}

/// The characters of `s`, in order.
pub fn chars_of(s: &str) -> (out: Vec<char>)
    ensures
        out@ == s@,
{
    broadcast use vstd::string::group_string_axioms;

    let mut out: Vec<char> = Vec::new();
    for c in it: s.chars()
        invariant
            it.seq() == s@,
            out@ == s@.take(it.index() as int),
    {
        out.push(c);
    }
    out
}

/// Joins the lines with single separators.
pub fn join(lines: &Vec<String>) -> (out: String)
    ensures
        out@ == join_lines(line_texts(lines@)),
{
    let mut out = String::new();
    let mut i: usize = 0;
    while i < lines.len()
        invariant
            i <= lines.len(),
            out@ == join_lines(line_texts(lines@).take(i as int)),
        decreases lines.len() - i,
    {
        let ghost done = line_texts(lines@).take(i as int);
        let ghost next = line_texts(lines@).take(i + 1);
        proof {
            reveal_strlit("\n");
            assert(next.drop_last() =~= done);
            assert(next.last() == lines@[i as int]@);
        }
        if i > 0 {
            out.append("\n");
            assert("\n"@ =~= seq![separator()]);
            assert(out@ =~= join_lines(done).push(separator()));
        }
        out.append(lines[i].as_str());
        assert(out@ =~= join_lines(next));
        i += 1;
    }
    assert(line_texts(lines@).take(i as int) =~= line_texts(lines@));
    out
}

/// Writes the lines out with a separator after each.
pub fn terminate(lines: &Vec<String>) -> (out: String)
    ensures
        out@ == terminate_lines(line_texts(lines@)),
{
    let mut out = String::new();
    let mut i: usize = 0;
    while i < lines.len()
        invariant
            i <= lines.len(),
            out@ == terminate_lines(line_texts(lines@).take(i as int)),
        decreases lines.len() - i,
    {
        let ghost done = line_texts(lines@).take(i as int);
        let ghost next = line_texts(lines@).take(i + 1);
        proof {
            reveal_strlit("\n");
            assert(next.drop_last() =~= done);
            assert(next.last() == lines@[i as int]@);
            assert("\n"@ =~= seq![separator()]);
        }
        out.append(lines[i].as_str());
        out.append("\n");
        assert(out@ =~= terminate_lines(next));
        i += 1;
    }
    assert(line_texts(lines@).take(i as int) =~= line_texts(lines@));
    out
}

/// Splits the text at its separators.
pub fn split(text: &str) -> (lines: Vec<String>)
    ensures
        line_texts(lines@) == split_lines(text@),
{
    broadcast use vstd::string::group_string_axioms;

    let mut lines: Vec<String> = Vec::new();
    let mut current = String::new();
    assert(line_texts(lines@).push(current@) =~= split_lines(text@.take(0)));
    for c in it: text.chars()
        invariant
            it.seq() == text@,
            line_texts(lines@).push(current@) == split_lines(text@.take(it.index() as int)),
    {
        let ghost seen = text@.take(it.index() as int);
        let ghost grown = text@.take(it.index() + 1);
        let ghost before = line_texts(lines@).push(current@);
        proof {
            assert(grown.drop_last() =~= seen);
            assert(grown.last() == c);
        }
        if c == '\n' {
            lines.push(current);
            current = String::new();
            assert(line_texts(lines@).push(current@) =~= before.push(Seq::empty()));
        } else {
            push_char(&mut current, c);
            assert(line_texts(lines@).push(current@) =~= before.update(
                before.len() - 1,
                before.last().push(c),
            ));
        }
    }
    assert(text@.take(text@.len() as int) =~= text@);
    let ghost before = line_texts(lines@).push(current@);
    lines.push(current);
    assert(line_texts(lines@) =~= before);
    lines
}

} // verus!

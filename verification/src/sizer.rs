//! The window sizer: how many lines a match of a pattern may span, read off
//! the newline escapes that the pattern's source text spells out.

use crate::text::chars_of;
use vstd::prelude::*;

verus! {

/// How often `needle` occurs in `text`, counting from the left and without
/// overlap: after an occurrence the count goes on behind it. Meant for a
/// needle that is not empty.
pub open spec fn occurrences(text: Seq<char>, needle: Seq<char>) -> nat
    decreases text.len(),
{
    if needle.len() == 0 || text.len() < needle.len() {
        0
    } else if text.take(needle.len() as int) == needle {
        1 + occurrences(text.skip(needle.len() as int), needle)
    } else {
        occurrences(text.skip(1), needle)
    }
}

/// The number of newline escapes that a pattern's source spells out: the
/// occurrences of each recognised form, added up. The forms are, as
/// written in a pattern, those for line feed, carriage return, the two in
/// a row, vertical tab, form feed, line separator and paragraph separator.
/// A carriage return followed by a line feed therefore counts three times.
pub open spec fn newline_escape_count(pattern: Seq<char>) -> nat {
    occurrences(pattern, "\\n"@) + occurrences(pattern, "\\r"@) + occurrences(pattern, "\\r\\n"@)
        + occurrences(pattern, "\\u{000B}"@) + occurrences(pattern, "\\u{000C}"@) + occurrences(
        pattern,
        "\\u{2028}"@,
    ) + occurrences(pattern, "\\u{2029}"@)
}

/// Whether `text` begins with `needle`.
pub open spec fn begins_with(text: Seq<char>, needle: Seq<char>) -> bool {
    needle.len() <= text.len() && text.take(needle.len() as int) == needle
}

/// At how many positions of `text` the `needle` stands, overlaps included.
pub open spec fn hits(text: Seq<char>, needle: Seq<char>) -> nat
    decreases text.len(),
{
    if text.len() == 0 {
        0
    } else if begins_with(text, needle) {
        1 + hits(text.skip(1), needle)
    } else {
        hits(text.skip(1), needle)
    }
}

/// At how many positions of `text` a newline escape stands, each form
/// counted for itself.
pub open spec fn newline_escape_hits(text: Seq<char>) -> nat {
    hits(text, "\\n"@) + hits(text, "\\r"@) + hits(text, "\\r\\n"@) + hits(text, "\\u{000B}"@)
        + hits(text, "\\u{000C}"@) + hits(text, "\\u{2028}"@) + hits(text, "\\u{2029}"@)
}

/// A needle stands at no more positions behind a prefix than in all.
pub proof fn lemma_hits_of_suffix(text: Seq<char>, needle: Seq<char>, k: int)
    requires
        0 <= k <= text.len(),
    ensures
        hits(text.skip(k), needle) <= hits(text, needle),
    decreases k,
{
    if k == 0 {
        assert(text.skip(0) =~= text);
    } else {
        lemma_hits_of_suffix(text.skip(1), needle, k - 1);
        assert(text.skip(1).skip(k - 1) =~= text.skip(k));
    }
}

/// There are no more occurrences without overlap than positions at which
/// the needle stands.
pub proof fn lemma_occurrences_are_hits(text: Seq<char>, needle: Seq<char>)
    ensures
        occurrences(text, needle) <= hits(text, needle),
    decreases text.len(),
{
    let m = needle.len() as int;
    if m == 0 || text.len() < m {
    } else if text.take(m) == needle {
        lemma_occurrences_are_hits(text.skip(m), needle);
        lemma_hits_of_suffix(text.skip(1), needle, m - 1);
        assert(text.skip(1).skip(m - 1) =~= text.skip(m));
    } else {
        lemma_occurrences_are_hits(text.skip(1), needle);
    }
}

/// How many newline escapes can stand in a text of a given beginning: every
/// one of them begins with a backslash and takes a second character, and
/// where two stand at one position, a carriage return with and without its
/// line feed, none stands at the next.
pub open spec fn escape_room(text: Seq<char>) -> int {
    if text.len() == 0 {
        0
    } else if text[0] == '\\' {
        text.len() - 1
    } else if text.len() == 1 {
        0
    } else {
        text.len() - 2
    }
}

/// Newline escapes stand at fewer positions than the text has characters.
pub proof fn lemma_escape_hits_fit(text: Seq<char>)
    ensures
        newline_escape_hits(text) <= escape_room(text),
    decreases text.len(),
{
    reveal_strlit("\\n");
    reveal_strlit("\\r");
    reveal_strlit("\\r\\n");
    reveal_strlit("\\u{000B}");
    reveal_strlit("\\u{000C}");
    reveal_strlit("\\u{2028}");
    reveal_strlit("\\u{2029}");
    if text.len() > 0 {
        let rest = text.skip(1);
        lemma_escape_hits_fit(rest);
        assert(rest.len() == text.len() - 1);
        if text.len() >= 2 {
            assert(rest[0] == text[1]);
            assert(text.take(2)[0] == text[0] && text.take(2)[1] == text[1]);
        }
        if text.len() >= 4 {
            assert(text.take(4)[0] == text[0] && text.take(4)[1] == text[1]);
        }
        if text.len() >= 8 {
            assert(text.take(8)[0] == text[0] && text.take(8)[1] == text[1]);
            assert(text.take(8)[3] == text[3] && text.take(8)[6] == text[6]);
        }
    }
}

/// A pattern holds fewer newline escapes than characters.
pub proof fn lemma_escape_count_fits(pattern: Seq<char>)
    ensures
        newline_escape_count(pattern) == 0 || newline_escape_count(pattern) < pattern.len(),
{
    lemma_occurrences_are_hits(pattern, "\\n"@);
    lemma_occurrences_are_hits(pattern, "\\r"@);
    lemma_occurrences_are_hits(pattern, "\\r\\n"@);
    lemma_occurrences_are_hits(pattern, "\\u{000B}"@);
    lemma_occurrences_are_hits(pattern, "\\u{000C}"@);
    lemma_occurrences_are_hits(pattern, "\\u{2028}"@);
    lemma_occurrences_are_hits(pattern, "\\u{2029}"@);
    lemma_escape_hits_fit(pattern);
}

/// Whether `needle` stands in `text` at position `at`.
fn stands_at(text: &Vec<char>, at: usize, needle: &Vec<char>) -> (found: bool)
    requires
        at + needle.len() <= text.len(),
    ensures
        found == (text@.subrange(at as int, at + needle.len()) == needle@),
{
    let mut k: usize = 0;
    while k < needle.len()
        invariant
            k <= needle.len(),
            at + needle.len() <= text.len(),
            text@.subrange(at as int, at + k) == needle@.take(k as int),
        decreases needle.len() - k,
    {
        if text[at + k] != needle[k] {
            assert(text@.subrange(at as int, at + needle.len())[k as int] != needle@[k as int]);
            return false;
        }
        assert(text@.subrange(at as int, at + k + 1) =~= text@.subrange(at as int, at + k).push(
            text@[at + k],
        ));
        assert(needle@.take(k + 1) =~= needle@.take(k as int).push(needle@[k as int]));
        k += 1;
    }
    assert(needle@.take(k as int) =~= needle@);
    true
}

/// Counts the occurrences of `needle` in `text` that do not overlap.
pub fn count_occurrences(text: &Vec<char>, needle: &Vec<char>) -> (count: usize)
    ensures
        count == occurrences(text@, needle@),
{
    let m = needle.len();
    if m == 0 {
        return 0;
    }
    let mut count: usize = 0;
    let mut at: usize = 0;
    assert(text@.skip(0) =~= text@);
    while m <= text.len() - at
        invariant
            m == needle.len(),
            m > 0,
            at <= text.len(),
            count <= at,
            count + occurrences(text@.skip(at as int), needle@) == occurrences(text@, needle@),
        decreases text.len() - at,
    {
        let ghost rest = text@.skip(at as int);
        assert(rest.take(m as int) =~= text@.subrange(at as int, at + m));
        if stands_at(text, at, needle) {
            assert(rest.skip(m as int) =~= text@.skip(at + m));
            count += 1;
            at += m;
        } else {
            assert(rest.skip(1) =~= text@.skip(at + 1));
            at += 1;
        }
    }
    count
}

/// The window size of a pattern: one more than the number of newline
/// escapes in its source. A pattern without such an escape gets 1, which
/// says that its matches are taken to stay within a line.
pub fn window_size(pattern: &str) -> (w: usize)
    ensures
        w == newline_escape_count(pattern@) + 1,
{
    let text = chars_of(pattern);
    let line_feed = count_occurrences(&text, &chars_of("\\n"));
    let carriage_return = count_occurrences(&text, &chars_of("\\r"));
    let both = count_occurrences(&text, &chars_of("\\r\\n"));
    let vertical_tab = count_occurrences(&text, &chars_of("\\u{000B}"));
    let form_feed = count_occurrences(&text, &chars_of("\\u{000C}"));
    let line_separator = count_occurrences(&text, &chars_of("\\u{2028}"));
    let paragraph_separator = count_occurrences(&text, &chars_of("\\u{2029}"));
    proof {
        lemma_escape_count_fits(text@);
        assert(line_feed + carriage_return + both + vertical_tab + form_feed + line_separator
            + paragraph_separator == newline_escape_count(text@));
        assert(newline_escape_count(text@) <= text.len() <= usize::MAX);
    }
    let short_forms: usize = line_feed + carriage_return + both;
    let long_forms: usize = vertical_tab + form_feed + line_separator + paragraph_separator;
    short_forms + long_forms + 1
}

} // verus!

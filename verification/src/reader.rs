//! A cursor over the lines of a source.

use crate::text::line_texts;
use vstd::prelude::*;

verus! {

/// Hands out the lines of a source in order, a few at a time. It holds
/// nothing but the lines and how many of them were handed out so far.
pub struct LineReader {
    lines: Vec<String>,
    consumed: usize,
}

impl LineReader {
    /// The cursor never runs past the last line.
    #[verifier::type_invariant]
    spec fn within_lines(&self) -> bool {
        self.consumed <= self.lines.len()
    }

    /// The lines that were not handed out yet.
    pub closed spec fn remaining(&self) -> Seq<Seq<char>> {
        line_texts(self.lines@).skip(self.consumed as int)
    }

    /// A reader in front of the first of `lines`.
    pub fn new(lines: Vec<String>) -> (reader: Self)
        ensures
            reader.remaining() == line_texts(lines@),
    {
        assert(line_texts(lines@).skip(0) =~= line_texts(lines@));
        LineReader { lines, consumed: 0 }
    }

    /// Hands out the next `num_lines` lines, or all that are left where
    /// fewer are.
    pub fn read_lines(&mut self, num_lines: usize) -> (out: Vec<String>)
        ensures
            line_texts(out@) == old(self).remaining().take(
                vstd::math::min(num_lines as int, old(self).remaining().len() as int),
            ),
            final(self).remaining() == old(self).remaining().skip(
                vstd::math::min(num_lines as int, old(self).remaining().len() as int),
            ),
    {
        proof {
            use_type_invariant(&*self);
        }
        let ghost all = line_texts(self.lines@);
        let ghost start = self.consumed as int;
        let left: usize = self.lines.len() - self.consumed;
        let count: usize = if num_lines < left {
            num_lines
        } else {
            left
        };
        let mut out: Vec<String> = Vec::new();
        let mut i: usize = 0;
        while i < count
            invariant
                i <= count,
                start + count <= self.lines.len(),
                self.consumed == start,
                self.lines == old(self).lines,
                all == line_texts(self.lines@),
                line_texts(out@) == all.subrange(start, start + i),
            decreases count - i,
        {
            let line = self.lines[self.consumed + i].clone();
            let ghost before = line_texts(out@);
            out.push(line);
            assert(line_texts(out@) =~= before.push(all[start + i]));
            assert(all.subrange(start, start + i).push(all[start + i]) =~= all.subrange(
                start,
                start + i + 1,
            ));
            i += 1;
        }
        self.consumed = self.consumed + count;
        assert(all.subrange(start, start + count) =~= all.skip(start).take(count as int));
        assert(all.skip(start + count) =~= all.skip(start).skip(count as int));
        out
    }
}

} // verus!

//! Conversions between byte offsets and lines of a text, for any notion
//! of line (logical lines, or the visual lines of a wrapped view).

use vstd::prelude::*;

use crate::editor::newline_count;
use crate::text::{char_boundary, line_start, prev_grapheme, text_bytes, Text};

verus! {

/// A division of texts into lines.
pub trait LineOffset {
    /// The line that holds `offset` in a text with these bytes.
    spec fn spec_line_of_offset(&self, bytes: Seq<u8>, offset: int) -> int;

    /// Where line `line` starts in a text with these bytes.
    spec fn spec_offset_of_line(&self, bytes: Seq<u8>, line: int) -> int;

    /// Where line `line` starts; one past the last line is allowed.
    fn offset_of_line(&self, text: &Text, line: usize) -> (r: usize)
        requires
            line <= self.spec_line_of_offset(text_bytes(*text), text_bytes(*text).len() as int) + 1,
        ensures
            r == self.spec_offset_of_line(text_bytes(*text), line as int),
            r <= text_bytes(*text).len(),
    ;

    /// The line that holds `offset`.
    fn line_of_offset(&self, text: &Text, offset: usize) -> (r: usize)
        requires
            offset <= text_bytes(*text).len(),
            char_boundary(text_bytes(*text), offset as int),
        ensures
            r == self.spec_line_of_offset(text_bytes(*text), offset as int),
            r <= offset,
            r <= self.spec_line_of_offset(text_bytes(*text), text_bytes(*text).len() as int),
    ;

    /// There are no more lines before an offset than bytes.
    proof fn lemma_lines_bounded(&self, bytes: Seq<u8>, offset: int)
        requires
            0 <= offset <= bytes.len(),
        ensures
            0 <= self.spec_line_of_offset(bytes, offset) <= offset,
    ;

    /// A line starts no later than the offsets it holds.
    proof fn lemma_line_starts_before(&self, bytes: Seq<u8>, offset: int)
        requires
            0 <= offset <= bytes.len(),
        ensures
            0 <= self.spec_offset_of_line(bytes, self.spec_line_of_offset(bytes, offset)) <= offset,
    ;
}

/// The logical lines of a text: lines end at newlines.
pub struct LogicalLines;

pub proof fn lemma_newline_count_take_mono(bytes: Seq<u8>, i: int, j: int)
    requires
        0 <= i <= j <= bytes.len(),
    ensures
        newline_count(bytes.take(i)) <= newline_count(bytes.take(j)),
        newline_count(bytes.take(j)) <= newline_count(bytes.take(i)) + (j - i),
    decreases j - i,
{
    if i < j {
        lemma_newline_count_take_mono(bytes, i, j - 1);
        assert(bytes.take(j).drop_last() =~= bytes.take(j - 1));
    }
}

proof fn lemma_line_start_bound(bytes: Seq<u8>, line: nat)
    ensures
        line_start(bytes, line) <= bytes.len(),
        line <= newline_count(bytes) ==> newline_count(bytes.take(line_start(bytes, line) as int)) == line,
    decreases bytes.len(),
{
    if line == 0 || bytes.len() == 0 {
        if line == 0 {
            assert(bytes.take(0) =~= Seq::<u8>::empty());
        }
    } else if newline_count(bytes.drop_last()) >= line {
        lemma_line_start_bound(bytes.drop_last(), line);
        let k = line_start(bytes.drop_last(), line) as int;
        assert(bytes.take(k) =~= bytes.drop_last().take(k));
    } else {
        assert(bytes.take(bytes.len() as int) =~= bytes);
    }
}

proof fn lemma_line_start_of_line(bytes: Seq<u8>, offset: int)
    requires
        0 <= offset <= bytes.len(),
    ensures
        line_start(bytes, newline_count(bytes.take(offset))) <= offset,
    decreases bytes.len(),
{
    let line = newline_count(bytes.take(offset));
    if line == 0 || bytes.len() == 0 {
    } else if offset == bytes.len() {
        assert(bytes.take(offset) =~= bytes);
        lemma_line_start_bound(bytes, line);
    } else {
        assert(bytes.take(offset) =~= bytes.drop_last().take(offset));
        lemma_newline_count_take_mono(bytes.drop_last(), offset, bytes.len() - 1);
        assert(bytes.drop_last().take(bytes.len() - 1) =~= bytes.drop_last());
        lemma_line_start_of_line(bytes.drop_last(), offset);
    }
}

impl LineOffset for LogicalLines {
    open spec fn spec_line_of_offset(&self, bytes: Seq<u8>, offset: int) -> int {
        newline_count(bytes.take(offset)) as int
    }

    open spec fn spec_offset_of_line(&self, bytes: Seq<u8>, line: int) -> int {
        line_start(bytes, line as nat) as int
    }

    fn offset_of_line(&self, text: &Text, line: usize) -> (r: usize) {
        proof {
            let bytes = text_bytes(*text);
            assert(bytes.take(bytes.len() as int) =~= bytes);
            lemma_line_start_bound(bytes, line as nat);
        }
        text.offset_of_line(line)
    }

    fn line_of_offset(&self, text: &Text, offset: usize) -> (r: usize) {
        proof {
            let bytes = text_bytes(*text);
            lemma_newline_count_take_mono(bytes, 0, offset as int);
            lemma_newline_count_take_mono(bytes, offset as int, bytes.len() as int);
            assert(bytes.take(0) =~= Seq::<u8>::empty());
        }
        text.line_of_offset(offset)
    }

    proof fn lemma_lines_bounded(&self, bytes: Seq<u8>, offset: int) {
        lemma_newline_count_take_mono(bytes, 0, offset);
        assert(bytes.take(0) =~= Seq::<u8>::empty());
    }

    proof fn lemma_line_starts_before(&self, bytes: Seq<u8>, offset: int) {
        lemma_line_start_of_line(bytes, offset);
    }
}

} // verus!

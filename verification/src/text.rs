//! The text of a buffer, held in a rope of the xi-rope crate, and the
//! queries on it that the editing logic makes.

use vstd::prelude::*;

use vstd::string::StringSliceAdditionalSpecFns;
use xi_rope::diff::{Diff, LineHashDiff};
use xi_rope::{Cursor, LinesMetric, Rope, RopeDelta};
use xi_core_lib::word_boundaries::WordCursor;

use crate::editor::newline_count;

verus! {

/// The text of a buffer. The rope is held privately: the logic reads it
/// only through the queries below.
#[verifier::external_body]
pub struct Text {
    pub(crate) rope: Rope,
}

/// The bytes of the text (UTF-8).
pub uninterp spec fn text_bytes(t: Text) -> Seq<u8>;

/// Whether offset `i` of UTF-8 bytes starts a character or is the end: the
/// byte there is no continuation byte.
pub open spec fn char_boundary(bytes: Seq<u8>, i: int) -> bool {
    i == 0 || i == bytes.len() || (0 < i < bytes.len() && (bytes[i] < 0x80 || bytes[i] >= 0xc0))
}

impl Text {
    /// `Rope::from` of xi-rope on a string slice: a rope holding exactly
    /// the bytes of the string.
    #[verifier::external_body]
    pub fn from_str(s: &str) -> (t: Text)
        ensures
            text_bytes(t) == s.spec_bytes(),
    {
        Text { rope: Rope::from(s) }
    }

    /// `Node::len` of xi-rope: the length of the text in bytes.
    #[verifier::external_body]
    pub fn len(&self) -> (n: usize)
        ensures
            n == text_bytes(*self).len(),
    {
        self.rope.len()
    }

    /// `String::from` of std on a rope: the text as a string.
    #[verifier::external_body]
    pub fn to_string(&self) -> (s: String)
        ensures
            vstd::utf8::encode_utf8(s@) == text_bytes(*self),
    {
        String::from(&self.rope)
    }

    /// `Rope::byte_at` of xi-rope: the byte at an offset inside the text.
    #[verifier::external_body]
    pub(crate) fn byte_at(&self, offset: usize) -> (b: u8)
        requires
            offset < text_bytes(*self).len(),
        ensures
            b == text_bytes(*self)[offset as int],
    {
        self.rope.byte_at(offset)
    }

    /// `Node::edit` of xi-rope on the range from `start` to the end: the
    /// text from `start` on is replaced by `new`. It panics where `start`
    /// falls inside a character.
    #[verifier::external_body]
    pub(crate) fn replace_tail(&mut self, start: usize, new: &str)
        requires
            start <= text_bytes(*old(self)).len(),
            char_boundary(text_bytes(*old(self)), start as int),
        ensures
            text_bytes(*final(self)) == text_bytes(*old(self)).take(start as int) + new.spec_bytes(),
    {
        self.rope.edit(start.., new)
    }

    /// `Node::measure::<LinesMetric>` of xi-rope: the number of newlines in
    /// the text.
    #[verifier::external_body]
    pub(crate) fn measure_lines(&self) -> (n: usize)
        ensures
            n == newline_count(text_bytes(*self)),
    {
        self.rope.measure::<LinesMetric>()
    }

    /// `Rope::line_of_offset` of xi-rope: the number of newlines before
    /// `offset`. It panics beyond the end of the text and inside a
    /// character.
    #[verifier::external_body]
    pub(crate) fn line_of_offset(&self, offset: usize) -> (n: usize)
        requires
            offset <= text_bytes(*self).len(),
            char_boundary(text_bytes(*self), offset as int),
        ensures
            n == newline_count(text_bytes(*self).take(offset as int)),
    {
        self.rope.line_of_offset(offset)
    }

    /// `Rope::offset_of_line` of xi-rope: where line `line` starts, the end
    /// of the text for one past the last line. It panics beyond that.
    #[verifier::external_body]
    pub(crate) fn offset_of_line(&self, line: usize) -> (n: usize)
        requires
            line <= newline_count(text_bytes(*self)) + 1,
        ensures
            n == line_start(text_bytes(*self), line as nat),
    {
        self.rope.offset_of_line(line)
    }

    /// `Rope::prev_grapheme_offset` of xi-rope: the grapheme boundary
    /// before `offset`, within the text; there is one for every offset
    /// past the start.
    #[verifier::external_body]
    pub(crate) fn prev_grapheme_offset(&self, offset: usize) -> (r: Option<usize>)
        requires
            offset <= text_bytes(*self).len(),
        ensures
            r == prev_grapheme(text_bytes(*self), offset),
            r is Some ==> r.unwrap() <= text_bytes(*self).len(),
            offset > 0 ==> r is Some && r.unwrap() < offset,
    {
        self.rope.prev_grapheme_offset(offset)
    }

    /// `Rope::next_grapheme_offset` of xi-rope: the grapheme boundary after
    /// `offset`, within the text; there is one for every offset before
    /// the end.
    #[verifier::external_body]
    pub(crate) fn next_grapheme_offset(&self, offset: usize) -> (r: Option<usize>)
        requires
            offset <= text_bytes(*self).len(),
        ensures
            r == next_grapheme(text_bytes(*self), offset),
            r is Some ==> r.unwrap() <= text_bytes(*self).len(),
            offset < text_bytes(*self).len() ==> r is Some && r.unwrap() > offset,
    {
        self.rope.next_grapheme_offset(offset)
    }

    /// `Cursor::prev::<LinesMetric>` of xi-rope from `offset`: the line
    /// boundary before it, if any, within the text.
    #[verifier::external_body]
    pub(crate) fn prev_line_boundary(&self, offset: usize) -> (r: Option<usize>)
        requires
            offset <= text_bytes(*self).len(),
        ensures
            r == prev_line_break(text_bytes(*self), offset),
            r is Some ==> r.unwrap() <= text_bytes(*self).len(),
    {
        Cursor::new(&self.rope, offset).prev::<LinesMetric>()
    }

    /// `Cursor::next::<LinesMetric>` of xi-rope from `offset`: the line
    /// boundary after it, if any, whether the cursor then sits on a line
    /// boundary, and where it sits.
    #[verifier::external_body]
    pub(crate) fn next_line_boundary(&self, offset: usize) -> (r: (Option<usize>, bool, usize))
        requires
            offset <= text_bytes(*self).len(),
        ensures
            r == next_line_break(text_bytes(*self), offset),
            r.0 is Some ==> r.0.unwrap() <= text_bytes(*self).len(),
    {
        let mut cursor = Cursor::new(&self.rope, offset);
        let next = cursor.next::<LinesMetric>();
        (next, cursor.is_boundary::<LinesMetric>(), cursor.pos())
    }

    /// `WordCursor::prev_boundary` of xi-core-lib from `offset`: the word
    /// boundary before it, if any, within the text.
    #[verifier::external_body]
    pub(crate) fn prev_word_boundary(&self, offset: usize) -> (r: Option<usize>)
        requires
            offset <= text_bytes(*self).len(),
        ensures
            r == prev_word(text_bytes(*self), offset),
            r is Some ==> r.unwrap() <= text_bytes(*self).len(),
    {
        WordCursor::new(&self.rope, offset).prev_boundary()
    }

    /// `WordCursor::next_boundary` of xi-core-lib from `offset`: the word
    /// boundary after it, if any, within the text. It panics where `offset`
    /// falls inside a character.
    #[verifier::external_body]
    pub(crate) fn next_word_boundary(&self, offset: usize) -> (r: Option<usize>)
        requires
            offset <= text_bytes(*self).len(),
            char_boundary(text_bytes(*self), offset as int),
        ensures
            r == next_word(text_bytes(*self), offset),
            r is Some ==> r.unwrap() <= text_bytes(*self).len(),
    {
        WordCursor::new(&self.rope, offset).next_boundary()
    }
}

/// Where line `line` of `bytes` starts: just after its `line`-th newline,
/// at 0 for the first line, and at the end for one past the last line.
pub open spec fn line_start(bytes: Seq<u8>, line: nat) -> nat
    decreases bytes.len(),
{
    if line == 0 || bytes.len() == 0 {
        0
    } else if newline_count(bytes.drop_last()) >= line {
        line_start(bytes.drop_last(), line)
    } else {
        bytes.len()
    }
}

/// The grapheme boundary xi-rope finds before an offset.
pub uninterp spec fn prev_grapheme(bytes: Seq<u8>, offset: usize) -> Option<usize>;

/// The grapheme boundary xi-rope finds after an offset.
pub uninterp spec fn next_grapheme(bytes: Seq<u8>, offset: usize) -> Option<usize>;

/// The line boundary a cursor of xi-rope moves back to from an offset.
pub uninterp spec fn prev_line_break(bytes: Seq<u8>, offset: usize) -> Option<usize>;

/// The line boundary a cursor of xi-rope moves on to from an offset,
/// whether it then sits on a boundary, and its position.
pub uninterp spec fn next_line_break(bytes: Seq<u8>, offset: usize) -> (Option<usize>, bool, usize);

/// The word boundary xi-core-lib finds before an offset.
pub uninterp spec fn prev_word(bytes: Seq<u8>, offset: usize) -> Option<usize>;

/// The word boundary xi-core-lib finds after an offset.
pub uninterp spec fn next_word(bytes: Seq<u8>, offset: usize) -> Option<usize>;

impl Clone for Text {
    /// `Node::clone` of xi-rope: a rope with the same text.
    #[verifier::external_body]
    fn clone(&self) -> (t: Text)
        ensures
            text_bytes(t) == text_bytes(*self),
    {
        Text { rope: self.rope.clone() }
    }
}

/// An edit that turns one text into another, as xi-rope's diff computes
/// it. The delta is held privately: the logic hands it to the engine.
#[verifier::external_body]
pub struct TextDelta {
    pub(crate) delta: RopeDelta,
}

/// The length of the text a delta applies to (its `base_len`).
pub uninterp spec fn delta_base_len(d: TextDelta) -> nat;

/// The bytes `Delta::apply` of xi-rope gives for a delta applied to a text
/// with these bytes.
pub uninterp spec fn delta_apply(d: TextDelta, base: Seq<u8>) -> Seq<u8>;

/// `LineHashDiff::compute_delta` of xi-rope: a delta whose base is `base`
/// (its `base_len` is the length of `base`) and which, applied to `base`,
/// gives `target`.
#[verifier::external_body]
pub(crate) fn line_hash_diff(base: &Text, target: &Text) -> (d: TextDelta)
    ensures
        delta_base_len(d) == text_bytes(*base).len(),
        delta_apply(d, text_bytes(*base)) == text_bytes(*target),
{
    TextDelta { delta: LineHashDiff::compute_delta(&base.rope, &target.rope) }
}

} // verus!

//! Movement of selection regions: by characters, words, lines and pages.

use vstd::prelude::*;

use crate::kinds::{Motion, Quantity};
use crate::line_offset::LineOffset;
use crate::selection::{HorizPos, SelRegion};
use crate::text::{
    char_boundary, next_grapheme, next_line_break, next_word, prev_grapheme, prev_line_break, prev_word,
    text_bytes,
    Text,
};

verus! {

/// When paging through a file, the number of lines from the previous page
/// that will also be visible in the next.
pub const SCROLL_OVERLAP: isize = 2;

pub open spec fn spec_scroll_height(height: usize) -> int {
    if height - SCROLL_OVERLAP > 1 { height - SCROLL_OVERLAP } else { 1 }
}

/// Computes the actual desired amount of scrolling (generally slightly
/// less than the height of the viewport, to allow overlap).
pub fn scroll_height(height: usize) -> (h: isize)
    requires
        height <= isize::MAX,
    ensures
        h == spec_scroll_height(height),
{
    let h = height as isize - SCROLL_OVERLAP;
    if h > 1 { h } else { 1 }
}

/// The offset of `col` bytes into line `line`, snapped back to a grapheme
/// boundary and kept on the line. (`None` would stand for no grapheme
/// boundary before a position inside the text, which xi-rope always
/// finds.)
pub open spec fn spec_line_col_to_offset<L: LineOffset>(lo: &L, bytes: Seq<u8>, line: int, col: int) -> Option<int> {
    let start = lo.spec_offset_of_line(bytes, line);
    let raw = if start + col > usize::MAX { usize::MAX as int } else { start + col };
    let len = bytes.len() as int;
    if raw >= len && lo.spec_line_of_offset(bytes, len) <= line {
        Some(len)
    } else {
        let snapped: Option<int> = if raw >= len {
            Some(len)
        } else {
            match prev_grapheme(bytes, (raw + 1) as usize) {
                Some(p) => Some(p as int),
                None => None,
            }
        };
        match snapped {
            None => None,
            Some(o) => {
                let next = lo.spec_offset_of_line(bytes, line + 1);
                if o >= next {
                    match prev_grapheme(bytes, next as usize) {
                        Some(p) => Some(p as int),
                        None => Some(o),
                    }
                } else {
                    Some(o)
                }
            },
        }
    }
}

/// The byte offset of a line and column.
pub fn line_col_to_offset<L: LineOffset>(lo: &L, text: &Text, line: usize, col: usize) -> (r: usize)
    requires
        line <= lo.spec_line_of_offset(text_bytes(*text), text_bytes(*text).len() as int),
        text_bytes(*text).len() < usize::MAX,
    ensures
        spec_line_col_to_offset(lo, text_bytes(*text), line as int, col as int) == Some(r as int),
        r <= text_bytes(*text).len(),
{
    let len = text.len();
    proof {
        lo.lemma_lines_bounded(text_bytes(*text), len as int);
    }
    let mut offset = lo.offset_of_line(text, line).saturating_add(col);
    if offset >= len {
        offset = len;
        if lo.line_of_offset(text, offset) <= line {
            return offset;
        }
    } else {
        offset = text.prev_grapheme_offset(offset + 1).unwrap();
    }
    let next_line_offset = lo.offset_of_line(text, line + 1);
    if offset >= next_line_offset {
        if let Some(prev) = text.prev_grapheme_offset(next_line_offset) {
            offset = prev;
        }
    }
    offset
}

/// The line and column of a byte offset.
pub fn offset_to_line_col<L: LineOffset>(lo: &L, text: &Text, offset: usize) -> (r: (usize, usize))
    requires
        offset <= text_bytes(*text).len(),
        char_boundary(text_bytes(*text), offset as int),
    ensures
        r.0 == lo.spec_line_of_offset(text_bytes(*text), offset as int),
        r.1 == offset - lo.spec_offset_of_line(text_bytes(*text), r.0 as int),
{
    let line = lo.line_of_offset(text, offset);
    proof {
        lo.lemma_line_starts_before(text_bytes(*text), offset as int);
    }
    (line, offset - lo.offset_of_line(text, line))
}

/// Whether a region lies within a text of `len` bytes.
pub open spec fn region_in_text(r: SelRegion, len: int) -> bool {
    r.start <= len && r.end <= len
}

/// Whether both ends of a region fall on character boundaries.
pub open spec fn region_on_boundaries(r: SelRegion, bytes: Seq<u8>) -> bool {
    char_boundary(bytes, r.start as int) && char_boundary(bytes, r.end as int)
}

/// The edge of a region that a vertical motion starts from.
pub open spec fn active_edge(r: SelRegion, move_up: bool, modify: bool) -> usize {
    if modify {
        r.end
    } else if move_up {
        r.spec_min()
    } else {
        r.spec_max()
    }
}

/// The column a vertical motion keeps: the region's own, else that of its
/// active edge.
pub open spec fn spec_motion_column<L: LineOffset>(lo: &L, bytes: Seq<u8>, r: SelRegion, move_up: bool, modify: bool) -> int {
    match r.horiz {
        Some(c) => c as int,
        None => {
            let active = active_edge(r, move_up, modify) as int;
            active - lo.spec_offset_of_line(bytes, lo.spec_line_of_offset(bytes, active))
        },
    }
}

/// Based on the current selection position this will return the cursor
/// column and the current line.
fn selection_position<L: LineOffset>(r: SelRegion, lo: &L, text: &Text, move_up: bool, modify: bool) -> (p: (HorizPos, usize))
    requires
        region_in_text(r, text_bytes(*text).len() as int),
        char_boundary(text_bytes(*text), active_edge(r, move_up, modify) as int),
    ensures
        p.0 == spec_motion_column(lo, text_bytes(*text), r, move_up, modify),
        p.1 == lo.spec_line_of_offset(text_bytes(*text), active_edge(r, move_up, modify) as int),
{
    let active = if modify {
        r.end
    } else if move_up {
        r.min()
    } else {
        r.max()
    };
    let col = if let Some(col) = r.horiz {
        col
    } else {
        offset_to_line_col(lo, text, active).1
    };
    let line = lo.line_of_offset(text, active);
    (col, line)
}

/// Where a vertical motion by `line_delta` lines lands, and the column it
/// keeps (`None` only where `spec_line_col_to_offset` is).
pub open spec fn spec_vertical_motion<L: LineOffset>(
    r: SelRegion,
    lo: &L,
    bytes: Seq<u8>,
    line_delta: int,
    modify: bool,
) -> Option<(int, Option<HorizPos>)> {
    let col = spec_motion_column(lo, bytes, r, line_delta < 0, modify);
    let line = lo.spec_line_of_offset(bytes, active_edge(r, line_delta < 0, modify) as int);
    let n_lines = lo.spec_line_of_offset(bytes, bytes.len() as int);
    if line_delta < 0 && -line_delta > line {
        Some((0, Some(col as usize)))
    } else {
        let target = if line + line_delta > usize::MAX { usize::MAX as int } else { line + line_delta };
        if target > n_lines {
            Some((bytes.len() as int, Some(col as usize)))
        } else {
            match spec_line_col_to_offset(lo, bytes, target, col) {
                Some(o) => Some((o, Some(col as usize))),
                None => None,
            }
        }
    }
}

/// Compute movement based on vertical motion by the given number of lines.
fn vertical_motion<L: LineOffset>(r: SelRegion, lo: &L, text: &Text, line_delta: isize, modify: bool) -> (res: (usize, Option<HorizPos>))
    requires
        region_in_text(r, text_bytes(*text).len() as int),
        char_boundary(text_bytes(*text), active_edge(r, line_delta < 0, modify) as int),
        text_bytes(*text).len() < usize::MAX,
        line_delta > isize::MIN,
    ensures
        spec_vertical_motion(r, lo, text_bytes(*text), line_delta as int, modify) == Some((res.0 as int, res.1)),
        res.0 <= text_bytes(*text).len(),
{
    let (col, line) = selection_position(r, lo, text, line_delta < 0, modify);
    let n_lines = lo.line_of_offset(text, text.len());
    if line_delta < 0 && (-line_delta) as usize > line {
        return (0, Some(col));
    }
    let line = if line_delta < 0 {
        line - (-line_delta) as usize
    } else {
        line.saturating_add(line_delta as usize)
    };
    if line > n_lines {
        return (text.len(), Some(col));
    }
    (line_col_to_offset(lo, text, line, col), Some(col))
}

/// Whether a motion is defined for a quantity.
pub open spec fn movement_supported(m: Motion, q: Quantity) -> bool {
    match q {
        Quantity::Word => m == Motion::Backward || m == Motion::Forward,
        Quantity::Character => m == Motion::Backward || m == Motion::Forward || m == Motion::Above
            || m == Motion::Below,
        Quantity::Line => m == Motion::First || m == Motion::Last || m == Motion::Begin || m
            == Motion::End,
        Quantity::Page => m == Motion::Above || m == Motion::Below,
        _ => false,
    }
}

/// Where a movement takes a region's active edge, and the column it
/// keeps (`None` only where `spec_vertical_motion` is).
pub open spec fn spec_movement_target<L: LineOffset>(
    m: Motion,
    q: Quantity,
    r: SelRegion,
    lo: &L,
    height: usize,
    bytes: Seq<u8>,
    modify: bool,
) -> Option<(int, Option<HorizPos>)> {
    let len = bytes.len() as int;
    match q {
        Quantity::Word => if m == Motion::Backward {
            Some(
                (
                    match prev_word(bytes, r.end) {
                        Some(o) => o as int,
                        None => 0,
                    },
                    None,
                ),
            )
        } else {
            Some(
                (
                    match next_word(bytes, r.end) {
                        Some(o) => o as int,
                        None => len,
                    },
                    None,
                ),
            )
        },
        Quantity::Character => if m == Motion::Backward {
            if r.is_caret_spec() || modify {
                match prev_grapheme(bytes, r.end) {
                    Some(o) => Some((o as int, None)),
                    None => Some((0, r.horiz)),
                }
            } else {
                Some((r.spec_min() as int, None))
            }
        } else if m == Motion::Forward {
            if r.is_caret_spec() || modify {
                match next_grapheme(bytes, r.end) {
                    Some(o) => Some((o as int, None)),
                    None => Some((r.end as int, r.horiz)),
                }
            } else {
                Some((r.spec_max() as int, None))
            }
        } else if m == Motion::Above {
            spec_vertical_motion(r, lo, bytes, -1, modify)
        } else {
            spec_vertical_motion(r, lo, bytes, 1, modify)
        },
        Quantity::Line => {
            let line = lo.spec_line_of_offset(bytes, r.end as int);
            if m == Motion::First {
                Some((lo.spec_offset_of_line(bytes, line), None))
            } else if m == Motion::Last {
                let next_line_offset = lo.spec_offset_of_line(bytes, line + 1);
                if line < lo.spec_line_of_offset(bytes, len) {
                    match prev_grapheme(bytes, next_line_offset as usize) {
                        Some(p) => Some((p as int, None)),
                        None => Some((len, None)),
                    }
                } else {
                    Some((len, None))
                }
            } else if m == Motion::Begin {
                Some(
                    (
                        match prev_line_break(bytes, r.end) {
                            Some(o) => o as int,
                            None => 0,
                        },
                        None,
                    ),
                )
            } else {
                let (next, at_boundary, pos) = next_line_break(bytes, r.end);
                match next {
                    Some(next_para) => Some(
                        (
                            if at_boundary {
                                match prev_grapheme(bytes, next_para) {
                                    Some(eol) => eol as int,
                                    None => r.end as int,
                                }
                            } else if pos == len {
                                len
                            } else {
                                r.end as int
                            },
                            None,
                        ),
                    ),
                    None => Some((len, None)),
                }
            }
        },
        _ => if m == Motion::Above {
            spec_vertical_motion(r, lo, bytes, -spec_scroll_height(height), modify)
        } else {
            spec_vertical_motion(r, lo, bytes, spec_scroll_height(height), modify)
        },
    }
}

/// The region a movement gives: a caret at the target, or the old anchor
/// extended to it when `modify` is set.
pub open spec fn moved_region(r: SelRegion, target: (int, Option<HorizPos>), modify: bool) -> SelRegion {
    SelRegion {
        start: if modify { r.start } else { target.0 as usize },
        end: target.0 as usize,
        horiz: target.1,
        affinity: crate::selection::Affinity::Downstream,
    }
}

/// Whether the offsets a motion reads lie on character boundaries: the
/// region's end for words forward and for the first and last of a line,
/// and the edge a vertical motion starts from for lines up and down and
/// pages.
pub open spec fn movement_offsets_on_boundaries(m: Motion, q: Quantity, r: SelRegion, bytes: Seq<u8>, modify: bool) -> bool {
    match q {
        Quantity::Word => m == Motion::Backward || char_boundary(bytes, r.end as int),
        Quantity::Character => m == Motion::Backward || m == Motion::Forward || char_boundary(
            bytes,
            active_edge(r, m == Motion::Above, modify) as int,
        ),
        Quantity::Line => !(m == Motion::First || m == Motion::Last) || char_boundary(bytes, r.end as int),
        _ => char_boundary(bytes, active_edge(r, m == Motion::Above, modify) as int),
    }
}

/// Compute the result of movement on one selection region, `height` being
/// the viewport height.
pub fn region_movement<L: LineOffset>(
    m: Motion,
    q: Quantity,
    r: SelRegion,
    lo: &L,
    height: usize,
    text: &Text,
    modify: bool,
) -> (res: SelRegion)
    requires
        movement_supported(m, q),
        region_in_text(r, text_bytes(*text).len() as int),
        movement_offsets_on_boundaries(m, q, r, text_bytes(*text), modify),
        text_bytes(*text).len() < usize::MAX,
        height <= isize::MAX,
    ensures
        spec_movement_target(m, q, r, lo, height, text_bytes(*text), modify) is Some,
        res == moved_region(r, spec_movement_target(m, q, r, lo, height, text_bytes(*text), modify).unwrap(), modify),
        region_in_text(res, text_bytes(*text).len() as int),
        !modify ==> res.is_caret_spec(),
{
    let len = text.len();
    let (offset, horiz) = match q {
        Quantity::Word => match m {
            Motion::Backward => {
                let offset = match text.prev_word_boundary(r.end) {
                    Some(o) => o,
                    None => 0,
                };
                (offset, None)
            },
            _ => {
                let offset = match text.next_word_boundary(r.end) {
                    Some(o) => o,
                    None => len,
                };
                (offset, None)
            },
        },
        Quantity::Character => match m {
            Motion::Backward => {
                if r.is_caret() || modify {
                    if let Some(offset) = text.prev_grapheme_offset(r.end) {
                        (offset, None)
                    } else {
                        (0, r.horiz)
                    }
                } else {
                    (r.min(), None)
                }
            },
            Motion::Forward => {
                if r.is_caret() || modify {
                    if let Some(offset) = text.next_grapheme_offset(r.end) {
                        (offset, None)
                    } else {
                        (r.end, r.horiz)
                    }
                } else {
                    (r.max(), None)
                }
            },
            Motion::Above => vertical_motion(r, lo, text, -1, modify),
            _ => vertical_motion(r, lo, text, 1, modify),
        },
        Quantity::Line => match m {
            Motion::First => {
                let line = lo.line_of_offset(text, r.end);
                let offset = lo.offset_of_line(text, line);
                (offset, None)
            },
            Motion::Last => {
                let line = lo.line_of_offset(text, r.end);
                let mut offset = len;
                proof {
                    lo.lemma_lines_bounded(text_bytes(*text), len as int);
                }
                let next_line_offset = lo.offset_of_line(text, line + 1);
                if line < lo.line_of_offset(text, offset) {
                    if let Some(prev) = text.prev_grapheme_offset(next_line_offset) {
                        offset = prev;
                    }
                }
                (offset, None)
            },
            Motion::Begin => {
                let offset = match text.prev_line_boundary(r.end) {
                    Some(o) => o,
                    None => 0,
                };
                (offset, None)
            },
            _ => {
                let mut offset = r.end;
                let (next, at_boundary, pos) = text.next_line_boundary(offset);
                if let Some(next_para_offset) = next {
                    if at_boundary {
                        if let Some(eol) = text.prev_grapheme_offset(next_para_offset) {
                            offset = eol;
                        }
                    } else if pos == len {
                        offset = len;
                    }
                    (offset, None)
                } else {
                    (len, None)
                }
            },
        },
        _ => match m {
            Motion::Above => vertical_motion(r, lo, text, -scroll_height(height), modify),
            _ => vertical_motion(r, lo, text, scroll_height(height), modify),
        },
    };
    SelRegion::new(if modify { r.start } else { offset }, offset).with_horiz(horiz)
}

/// A vertical motion keeps the column the region already remembers.
pub proof fn law_vertical_motion_keeps_column<L: LineOffset>(
    r: SelRegion,
    lo: &L,
    bytes: Seq<u8>,
    line_delta: int,
    modify: bool,
)
    requires
        r.horiz is Some,
        spec_vertical_motion(r, lo, bytes, line_delta, modify) is Some,
    ensures
        spec_vertical_motion(r, lo, bytes, line_delta, modify).unwrap().1 == r.horiz,
{
}

/// A movement without `modify` leaves a caret; with it, the region keeps
/// its anchor and moves its active edge.
pub proof fn law_movement_shape(r: SelRegion, target: (int, Option<HorizPos>), modify: bool)
    ensures
        !modify ==> moved_region(r, target, modify).is_caret_spec(),
        modify ==> moved_region(r, target, modify).start == r.start,
        moved_region(r, target, modify).end == target.0 as usize,
{
}

/// Moving a caret while modifying the selection lands where the plain move
/// lands, and keeps the caret's position as the anchor: only the active
/// end moves.
pub proof fn law_modify_keeps_anchor<L: LineOffset>(
    m: Motion,
    q: Quantity,
    r: SelRegion,
    lo: &L,
    height: usize,
    bytes: Seq<u8>,
)
    requires
        r.is_caret_spec(),
    ensures
        spec_movement_target(m, q, r, lo, height, bytes, true) == spec_movement_target(
            m,
            q,
            r,
            lo,
            height,
            bytes,
            false,
        ),
        forall|t: (int, Option<HorizPos>)|
            spec_movement_target(m, q, r, lo, height, bytes, false) == Some(t) ==> #[trigger] moved_region(
                r,
                t,
                true,
            ) == (SelRegion { start: r.start, ..moved_region(r, t, false) }),
{
    assert(active_edge(r, true, true) == active_edge(r, true, false));
    assert(active_edge(r, false, true) == active_edge(r, false, false));
}

/// A page up or down moves the active edge by the scroll height, the
/// viewport height less the overlap of two lines (at least one line): the
/// same place as a vertical motion by that many lines up or down. Going up
/// lands on the line that many lines above the active edge's line, at the
/// column it keeps, or at the very start when there are fewer lines above.
pub proof fn law_page_moves_by_scroll_height<L: LineOffset>(
    r: SelRegion,
    lo: &L,
    height: usize,
    bytes: Seq<u8>,
    modify: bool,
)
    ensures
        ({
            let s: int = if height > 3 { height - 2 } else { 1 };
            let up_line = lo.spec_line_of_offset(bytes, active_edge(r, true, modify) as int);
            let up_col = spec_motion_column(lo, bytes, r, true, modify);
            &&& s >= 1
            &&& spec_movement_target(Motion::Above, Quantity::Page, r, lo, height, bytes, modify)
                == spec_vertical_motion(r, lo, bytes, -s, modify)
            &&& spec_movement_target(Motion::Below, Quantity::Page, r, lo, height, bytes, modify)
                == spec_vertical_motion(r, lo, bytes, s, modify)
            &&& up_line < s ==> spec_movement_target(Motion::Above, Quantity::Page, r, lo, height, bytes, modify)
                == Some((0int, Some(up_col as usize)))
            &&& s <= up_line <= lo.spec_line_of_offset(bytes, bytes.len() as int) && bytes.len() <= usize::MAX
                ==> spec_movement_target(
                Motion::Above,
                Quantity::Page,
                r,
                lo,
                height,
                bytes,
                modify,
            ) == match spec_line_col_to_offset(lo, bytes, up_line - s, up_col) {
                Some(o) => Some((o, Some(up_col as usize))),
                None => None,
            }
        }),
{
    let s: int = if height > 3 { height - 2 } else { 1 };
    assert(spec_scroll_height(height) == s);
    let up_line = lo.spec_line_of_offset(bytes, active_edge(r, true, modify) as int);
    let n_lines = lo.spec_line_of_offset(bytes, bytes.len() as int);
    lo.lemma_lines_bounded(bytes, bytes.len() as int);
    if s <= up_line <= n_lines {
        assert(up_line - s <= n_lines);
        if up_line + (-s) > usize::MAX {
            assert(n_lines > usize::MAX);
        }
    }
}

} // verus!

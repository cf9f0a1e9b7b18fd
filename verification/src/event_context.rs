//! Where actions of the editing core go, and the line ranges that the
//! selection covers.

use vstd::prelude::*;

use std::ops::Range;

use crate::actions::Action;
use crate::editor::newline_count;
use crate::line_offset::lemma_newline_count_take_mono;
use crate::movement::{region_in_text, region_on_boundaries};
use crate::selection::SelRegion;
use crate::text::{text_bytes, Text};

verus! {

/// What an action acts on.
#[derive(Debug, Clone, Copy, PartialEq, Eq, Structural)]
pub enum ActionTarget {
    View,
    Buffer,
    Special,
}

/// Hover Item sent from Plugin to Core
#[derive(Debug)]
pub struct Hover {
    pub content: String,
    pub range: Option<Range<usize>>,
}

pub open spec fn spec_action_target(action: Action) -> ActionTarget {
    match action {
        Action::NewView { .. } | Action::RequestLines(..) | Action::SetMode(..) => ActionTarget::Special,
        Action::SetTheme { .. } | Action::ToggleLineNumbers => ActionTarget::Special,
        Action::Delete(..) | Action::InsertChars(..) | Action::InsertNewline | Action::InsertTab
        | Action::Undo | Action::Redo | Action::Yank | Action::Indent | Action::Outdent
        | Action::DuplicateLine | Action::IncreaseNumber | Action::DecreaseNumber | Action::Uppercase
        | Action::Lowercase | Action::Paste | Action::Replace(..) | Action::Repeat(..)
        | Action::Duplicate(..) => ActionTarget::Buffer,
        _ => ActionTarget::View,
    }
}

/// What an action acts on: the buffer for edits, the view for motions,
/// selections, gestures and scrolling, and the core itself for new views,
/// requests for lines, mode and theme changes and the line-number toggle.
pub fn determine_action_target(action: &Action) -> (t: ActionTarget)
    ensures
        t == spec_action_target(*action),
{
    match action {
        Action::NewView { .. } | Action::RequestLines(..) | Action::SetMode(..) => ActionTarget::Special,
        Action::SetTheme { .. } | Action::ToggleLineNumbers => ActionTarget::Special,
        Action::Delete(..) | Action::InsertChars(..) | Action::InsertNewline | Action::InsertTab
        | Action::Undo | Action::Redo | Action::Yank | Action::Indent | Action::Outdent
        | Action::DuplicateLine | Action::IncreaseNumber | Action::DecreaseNumber | Action::Uppercase
        | Action::Lowercase | Action::Paste | Action::Replace(..) | Action::Repeat(..)
        | Action::Duplicate(..) => ActionTarget::Buffer,
        Action::SelectAll | Action::AddSelection(..) | Action::CollapseSelections | Action::GoToLine(..)
        | Action::Move(..) | Action::MoveSelection(..) | Action::Gesture { .. } | Action::Scroll(..) => {
            ActionTarget::View
        },
    }
}

/// The lines a region covers, from the line of its start to the line after
/// that of its end.
pub open spec fn region_lines(bytes: Seq<u8>, r: SelRegion) -> (usize, usize) {
    (
        newline_count(bytes.take(r.spec_min() as int)) as usize,
        (newline_count(bytes.take(r.spec_max() as int)) + 1) as usize,
    )
}

/// The line ranges of regions, with each range that starts before the
/// pending one ends merged into it; the pending range comes last.
pub open spec fn merged_line_ranges(bytes: Seq<u8>, regions: Seq<SelRegion>) -> (Seq<(usize, usize)>, Option<(usize, usize)>)
    decreases regions.len(),
{
    if regions.len() == 0 {
        (Seq::empty(), None)
    } else {
        let (done, pending) = merged_line_ranges(bytes, regions.drop_last());
        let range = region_lines(bytes, regions.last());
        match pending {
            None => (done, Some(range)),
            Some(prev) => if range.0 <= prev.1 {
                (
                    done,
                    Some(
                        (
                            if prev.0 <= range.0 { prev.0 } else { range.0 },
                            if prev.1 >= range.1 { prev.1 } else { range.1 },
                        ),
                    ),
                )
            } else {
                (done.push(prev), Some(range))
            },
        }
    }
}

/// The line ranges the regions cover, overlapping ones combined.
pub open spec fn line_ranges(bytes: Seq<u8>, regions: Seq<SelRegion>) -> Seq<(usize, usize)> {
    let (done, pending) = merged_line_ranges(bytes, regions);
    match pending {
        Some(p) => done.push(p),
        None => done,
    }
}

/// The line ranges that the selection regions cover, with overlapping
/// ranges of consecutive regions combined, as syntax highlighting takes
/// them.
pub fn selected_line_ranges(regions: &[SelRegion], text: &Text) -> (r: Vec<(usize, usize)>)
    requires
        forall|i: int| 0 <= i < regions@.len() ==> region_in_text(#[trigger] regions@[i], text_bytes(*text).len() as int),
        forall|i: int| 0 <= i < regions@.len() ==> region_on_boundaries(#[trigger] regions@[i], text_bytes(*text)),
        text_bytes(*text).len() < usize::MAX,
    ensures
        r@ == line_ranges(text_bytes(*text), regions@),
{
    let mut prev_range: Option<(usize, usize)> = None;
    let mut line_ranges: Vec<(usize, usize)> = Vec::new();
    let mut i: usize = 0;
    while i < regions.len()
        invariant
            i <= regions@.len(),
            forall|j: int| 0 <= j < regions@.len() ==> region_in_text(#[trigger] regions@[j], text_bytes(*text).len() as int),
            forall|j: int| 0 <= j < regions@.len() ==> region_on_boundaries(#[trigger] regions@[j], text_bytes(*text)),
            text_bytes(*text).len() < usize::MAX,
            (line_ranges@, prev_range) == merged_line_ranges(text_bytes(*text), regions@.take(i as int)),
        decreases regions.len() - i,
    {
        let region = regions[i];
        proof {
            assert(regions@.take(i + 1).drop_last() =~= regions@.take(i as int));
            assert(region_in_text(regions@[i as int], text_bytes(*text).len() as int));
            assert(region_on_boundaries(regions@[i as int], text_bytes(*text)));
            let bytes = text_bytes(*text);
            crate::line_offset::lemma_newline_count_take_mono(bytes, 0, region.spec_max() as int);
            assert(bytes.take(0) =~= Seq::<u8>::empty());
        }
        let start = text.line_of_offset(region.min());
        let end = text.line_of_offset(region.max()) + 1;
        match prev_range {
            None => {
                prev_range = Some((start, end));
            },
            Some(prev) => {
                if start <= prev.1 {
                    let s = if prev.0 <= start { prev.0 } else { start };
                    let e = if prev.1 >= end { prev.1 } else { end };
                    prev_range = Some((s, e));
                } else {
                    line_ranges.push(prev);
                    prev_range = Some((start, end));
                }
            },
        }
        i += 1;
    }
    proof {
        assert(regions@.take(i as int) =~= regions@);
    }
    if let Some(prev) = prev_range {
        line_ranges.push(prev);
    }
    line_ranges
}

/// Whether regions come in the order of their starts, as the regions of a
/// selection do.
pub open spec fn regions_ordered(regions: Seq<SelRegion>) -> bool {
    forall|i: int, j: int|
        0 <= i <= j < regions.len() ==> (#[trigger] regions[i]).spec_min() <= (#[trigger] regions[j]).spec_min()
}

/// Whether one of the ranges holds `line`.
pub open spec fn ranges_cover(ranges: Seq<(usize, usize)>, line: int) -> bool {
    exists|k: int| 0 <= k < ranges.len() && (#[trigger] ranges[k]).0 <= line < ranges[k].1
}

/// Whether one of the regions covers `line`.
pub open spec fn regions_cover(bytes: Seq<u8>, regions: Seq<SelRegion>, line: int) -> bool {
    exists|i: int|
        0 <= i < regions.len() && (#[trigger] region_lines(bytes, regions[i])).0 <= line < region_lines(
            bytes,
            regions[i],
        ).1
}

/// Whether ranges are nonempty and each ends before any later one starts.
pub open spec fn ranges_separated(ranges: Seq<(usize, usize)>) -> bool {
    &&& forall|k: int| 0 <= k < ranges.len() ==> (#[trigger] ranges[k]).0 < ranges[k].1
    &&& forall|i: int, j: int| 0 <= i < j < ranges.len() ==> (#[trigger] ranges[i]).1 < (#[trigger] ranges[j]).0
}

/// Whether the pending range of a merge holds `line`.
pub open spec fn pending_covers(pending: Option<(usize, usize)>, line: int) -> bool {
    match pending {
        Some(p) => p.0 <= line < p.1,
        None => false,
    }
}

proof fn lemma_region_lines_nonempty(bytes: Seq<u8>, r: SelRegion)
    requires
        region_in_text(r, bytes.len() as int),
        bytes.len() < usize::MAX,
    ensures
        region_lines(bytes, r).0 < region_lines(bytes, r).1,
        region_lines(bytes, r).0 == newline_count(bytes.take(r.spec_min() as int)),
        region_lines(bytes, r).1 == newline_count(bytes.take(r.spec_max() as int)) + 1,
{
    lemma_newline_count_take_mono(bytes, r.spec_min() as int, r.spec_max() as int);
    lemma_newline_count_take_mono(bytes, 0, r.spec_max() as int);
    assert(bytes.take(0) =~= Seq::<u8>::empty());
}

/// What merging the line ranges of ordered regions keeps: the finished
/// ranges are separated and end before the pending one, which is nonempty
/// and starts no later than the lines of the last region.
pub open spec fn merged_ok(bytes: Seq<u8>, regions: Seq<SelRegion>) -> bool {
    let (done, pending) = merged_line_ranges(bytes, regions);
    &&& (pending is None <==> regions.len() == 0)
    &&& (pending is None ==> done.len() == 0)
    &&& pending is Some ==> pending.unwrap().0 < pending.unwrap().1 && pending.unwrap().0 <= region_lines(
        bytes,
        regions.last(),
    ).0
    &&& ranges_separated(done)
    &&& done.len() > 0 ==> pending is Some && done.last().1 < pending.unwrap().0
}

proof fn lemma_push_separated(done: Seq<(usize, usize)>, p: (usize, usize))
    requires
        ranges_separated(done),
        p.0 < p.1,
        done.len() > 0 ==> done.last().1 < p.0,
    ensures
        ranges_separated(done.push(p)),
{
    let r = done.push(p);
    assert forall|k: int| 0 <= k < r.len() implies (#[trigger] r[k]).0 < r[k].1 by {
        if k < done.len() {
            assert(r[k] == done[k]);
        }
    }
    assert forall|i: int, j: int| 0 <= i < j < r.len() implies (#[trigger] r[i]).1 < (#[trigger] r[j]).0 by {
        assert(r[i] == done[i]);
        if j < done.len() {
            assert(r[j] == done[j]);
        } else {
            let l = done.len() - 1;
            assert(r[j] == p);
            if i < l {
                assert(done[i].1 < done[l].0);
                assert(done[l].0 < done[l].1);
            }
        }
    }
}

proof fn lemma_push_cover(done: Seq<(usize, usize)>, p: (usize, usize), line: int)
    ensures
        ranges_cover(done.push(p), line) == (ranges_cover(done, line) || (p.0 <= line < p.1)),
{
    let r = done.push(p);
    if ranges_cover(r, line) {
        let k = choose|k: int| 0 <= k < r.len() && (#[trigger] r[k]).0 <= line < r[k].1;
        if k < done.len() {
            assert(r[k] == done[k]);
        }
    }
    if ranges_cover(done, line) {
        let k = choose|k: int| 0 <= k < done.len() && (#[trigger] done[k]).0 <= line < done[k].1;
        assert(r[k] == done[k]);
    }
    if p.0 <= line < p.1 {
        assert(r[done.len() as int] == p);
    }
}

proof fn lemma_regions_cover_last(bytes: Seq<u8>, regions: Seq<SelRegion>, line: int)
    requires
        regions.len() > 0,
    ensures
        regions_cover(bytes, regions, line) == (regions_cover(bytes, regions.drop_last(), line) || (
        region_lines(bytes, regions.last()).0 <= line < region_lines(bytes, regions.last()).1)),
{
    let prev = regions.drop_last();
    let range = region_lines(bytes, regions.last());
    if regions_cover(bytes, regions, line) {
        let i = choose|i: int|
            0 <= i < regions.len() && (#[trigger] region_lines(bytes, regions[i])).0 <= line < region_lines(
                bytes,
                regions[i],
            ).1;
        if i < prev.len() {
            assert(prev[i] == regions[i]);
        }
    }
    if regions_cover(bytes, prev, line) {
        let i = choose|i: int|
            0 <= i < prev.len() && (#[trigger] region_lines(bytes, prev[i])).0 <= line < region_lines(
                bytes,
                prev[i],
            ).1;
        assert(prev[i] == regions[i]);
    }
    if range.0 <= line < range.1 {
        assert(region_lines(bytes, regions[regions.len() - 1]) == range);
    }
}

proof fn lemma_ordered_prefix(regions: Seq<SelRegion>)
    requires
        regions_ordered(regions),
        regions.len() > 0,
    ensures
        regions_ordered(regions.drop_last()),
{
    let prev = regions.drop_last();
    assert forall|i: int, j: int| 0 <= i <= j < prev.len() implies (#[trigger] prev[i]).spec_min() <= (
    #[trigger] prev[j]).spec_min() by {
        assert(prev[i] == regions[i] && prev[j] == regions[j]);
    }
}

proof fn lemma_merged_line_ranges(bytes: Seq<u8>, regions: Seq<SelRegion>)
    requires
        regions_ordered(regions),
        forall|i: int| 0 <= i < regions.len() ==> region_in_text(#[trigger] regions[i], bytes.len() as int),
        bytes.len() < usize::MAX,
    ensures
        merged_ok(bytes, regions),
    decreases regions.len(),
{
    if regions.len() > 0 {
        let prev = regions.drop_last();
        lemma_ordered_prefix(regions);
        lemma_merged_line_ranges(bytes, prev);
        let (done0, pending0) = merged_line_ranges(bytes, prev);
        let last = regions.last();
        let range = region_lines(bytes, last);
        lemma_region_lines_nonempty(bytes, last);
        if let Some(p) = pending0 {
            let pl = prev.last();
            assert(pl == regions[prev.len() - 1]);
            assert(regions[prev.len() - 1].spec_min() <= regions[regions.len() - 1].spec_min());
            lemma_newline_count_take_mono(bytes, pl.spec_min() as int, last.spec_min() as int);
            lemma_region_lines_nonempty(bytes, pl);
            if range.0 > p.1 {
                lemma_push_separated(done0, p);
            }
        }
    }
}

proof fn lemma_merged_cover(bytes: Seq<u8>, regions: Seq<SelRegion>, line: int)
    requires
        regions_ordered(regions),
        forall|i: int| 0 <= i < regions.len() ==> region_in_text(#[trigger] regions[i], bytes.len() as int),
        bytes.len() < usize::MAX,
    ensures
        (ranges_cover(merged_line_ranges(bytes, regions).0, line) || pending_covers(
            merged_line_ranges(bytes, regions).1,
            line,
        )) == regions_cover(bytes, regions, line),
    decreases regions.len(),
{
    if regions.len() == 0 {
    } else {
        let prev = regions.drop_last();
        lemma_ordered_prefix(regions);
        lemma_merged_cover(bytes, prev, line);
        lemma_merged_line_ranges(bytes, prev);
        lemma_regions_cover_last(bytes, regions, line);
        let (done0, pending0) = merged_line_ranges(bytes, prev);
        let last = regions.last();
        lemma_region_lines_nonempty(bytes, last);
        if let Some(p) = pending0 {
            let pl = prev.last();
            assert(pl == regions[prev.len() - 1]);
            assert(regions[prev.len() - 1].spec_min() <= regions[regions.len() - 1].spec_min());
            lemma_newline_count_take_mono(bytes, pl.spec_min() as int, last.spec_min() as int);
            lemma_region_lines_nonempty(bytes, pl);
            lemma_push_cover(done0, p, line);
        }
    }
}

/// Selected line ranges combine overlapping selections into the fewest
/// ranges: for regions in the order of their starts, as a selection holds
/// them, each range is nonempty, each ends before the next one starts, and
/// together they cover exactly the lines that the regions cover.
pub proof fn law_line_ranges_minimal(bytes: Seq<u8>, regions: Seq<SelRegion>)
    requires
        regions_ordered(regions),
        forall|i: int| 0 <= i < regions.len() ==> region_in_text(#[trigger] regions[i], bytes.len() as int),
        bytes.len() < usize::MAX,
    ensures
        ranges_separated(line_ranges(bytes, regions)),
        forall|line: int| ranges_cover(line_ranges(bytes, regions), line) <==> regions_cover(bytes, regions, line),
{
    lemma_merged_line_ranges(bytes, regions);
    let (done, pending) = merged_line_ranges(bytes, regions);
    if let Some(p) = pending {
        lemma_push_separated(done, p);
    }
    assert forall|line: int| ranges_cover(line_ranges(bytes, regions), line) <==> regions_cover(
        bytes,
        regions,
        line,
    ) by {
        lemma_merged_cover(bytes, regions, line);
        if let Some(p) = pending {
            lemma_push_cover(done, p, line);
        }
    }
}

} // verus!

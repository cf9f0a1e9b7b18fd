//! What a view of a buffer decides by itself: which lines to send to the
//! frontend and how, the cursors and selections of a line, how styles of
//! a line are encoded, and its scroll window.

use vstd::prelude::*;

use crate::line_offset::LineOffset;
use crate::selection::SelRegion;
use crate::movement::region_on_boundaries;
use crate::text::{char_boundary, text_bytes, Text};

verus! {

/// Contains replacement string and replace options.
#[derive(Debug, Default, PartialEq, Eq, Clone)]
pub struct Replace {
    /// Replacement string.
    pub chars: String,
    pub preserve_case: bool,
}

pub open spec fn spec_clamp(x: usize, min: usize, max: usize) -> usize {
    if x < min {
        min
    } else if x < max {
        x
    } else {
        max
    }
}

/// Clamps a value within the given range.
pub fn clamp(x: usize, min: usize, max: usize) -> (r: usize)
    ensures
        r == spec_clamp(x, min, max),
{
    if x < min {
        min
    } else if x < max {
        x
    } else {
        max
    }
}

/// The lines of a view that are on screen.
#[derive(Debug, Clone, Copy, PartialEq, Eq, Structural)]
pub struct Viewport {
    /// The first visible line.
    pub first_line: usize,
    /// The number of visible lines.
    pub height: usize,
}

impl Viewport {
    /// Sets the visible lines from the range the frontend reports; negative
    /// bounds count as zero.
    pub fn set_scroll(&mut self, first: i64, last: i64)
        requires
            first <= usize::MAX,
            last <= usize::MAX,
            (if last > 0 { last as int } else { 0 }) >= (if first > 0 { first as int } else { 0 }),
        ensures
            final(self).first_line == (if first > 0 { first as int } else { 0 }),
            final(self).height == (if last > 0 { last as int } else { 0 }) - (if first > 0 {
                first as int
            } else {
                0
            }),
    {
        let first: usize = if first > 0 { first as usize } else { 0 };
        let last: usize = if last > 0 { last as usize } else { 0 };
        self.first_line = first;
        self.height = last - first;
    }

    /// The number of lines a page scroll moves.
    pub fn scroll_height(&self) -> (h: usize)
        ensures
            h == self.height,
    {
        self.height
    }

    /// Scrolls so that `line`, the line of the caret, is visible: up to it
    /// when it is above the window, down to make it the last visible line
    /// when it is below.
    pub fn scroll_to_line(&mut self, line: usize)
        requires
            old(self).first_line + old(self).height <= usize::MAX,
            line >= old(self).first_line + old(self).height ==> old(self).height >= 1,
        ensures
            final(self).height == old(self).height,
            final(self).first_line == (if line < old(self).first_line {
                line as int
            } else if old(self).first_line + old(self).height <= line {
                line - (old(self).height - 1)
            } else {
                old(self).first_line as int
            }),
            old(self).height >= 1 ==> final(self).first_line <= line < final(self).first_line
                + final(self).height,
    {
        if line < self.first_line {
            self.first_line = line;
        } else if self.first_line + self.height <= line {
            self.first_line = line - (self.height - 1);
        }
    }
}

/// Whether a line shows the caret of a region whose caret is at `c`: inside
/// the line, at its start unless the caret sits upstream, at its end when
/// the caret sits upstream, or at the very end of the text.
pub open spec fn shows_cursor(r: SelRegion, start_pos: usize, pos: usize, last_pos: usize) -> bool {
    let c = r.end;
    (c > start_pos && c < pos) || (!r.is_upstream_spec() && c == start_pos) || (r.is_upstream_spec()
        && c == pos) || (c == pos && c == last_pos)
}

/// The cursors a line shows, as offsets from its start, for the regions
/// that touch it, in order.
pub open spec fn line_cursors(regions: Seq<SelRegion>, start_pos: usize, pos: usize, last_pos: usize) -> Seq<usize>
    decreases regions.len(),
{
    if regions.len() == 0 {
        Seq::empty()
    } else {
        let r = regions.last();
        let before = line_cursors(regions.drop_last(), start_pos, pos, last_pos);
        if shows_cursor(r, start_pos, pos, last_pos) {
            before.push((r.end - start_pos) as usize)
        } else {
            before
        }
    }
}

/// The part of a region inside a line, as offsets from the line's start.
pub open spec fn line_selection(r: SelRegion, start_pos: usize, pos: usize) -> (usize, usize) {
    (
        (spec_clamp(r.spec_min(), start_pos, pos) - start_pos) as usize,
        (spec_clamp(r.spec_max(), start_pos, pos) - start_pos) as usize,
    )
}

/// The selections a line shows: the nonempty parts of the regions inside
/// it, in order.
pub open spec fn line_selections(regions: Seq<SelRegion>, start_pos: usize, pos: usize) -> Seq<(usize, usize)>
    decreases regions.len(),
{
    if regions.len() == 0 {
        Seq::empty()
    } else {
        let before = line_selections(regions.drop_last(), start_pos, pos);
        let s = line_selection(regions.last(), start_pos, pos);
        if s.1 > s.0 {
            before.push(s)
        } else {
            before
        }
    }
}

/// Every caret a line holds is drawn on it, once per region, at its column:
/// a region whose caret sits inside the line, at its start unless the caret
/// leans to the previous line (upstream), or at its end when it leans back
/// to this line, gives the cursor `end - start_pos`. No line has more
/// cursors than regions, and every cursor is a column of the line.
pub proof fn law_line_cursors(regions: Seq<SelRegion>, start_pos: usize, pos: usize, last_pos: usize)
    requires
        start_pos <= pos,
    ensures
        forall|i: int|
            0 <= i < regions.len() && ((!(#[trigger] regions[i]).is_upstream_spec() && start_pos <= regions[i].end
                < pos) || (regions[i].is_upstream_spec() && start_pos < regions[i].end <= pos)) ==> line_cursors(
                regions,
                start_pos,
                pos,
                last_pos,
            ).contains((regions[i].end - start_pos) as usize),
        line_cursors(regions, start_pos, pos, last_pos).len() <= regions.len(),
        forall|j: int|
            0 <= j < line_cursors(regions, start_pos, pos, last_pos).len() ==> #[trigger] line_cursors(
                regions,
                start_pos,
                pos,
                last_pos,
            )[j] <= pos - start_pos,
    decreases regions.len(),
{
    if regions.len() > 0 {
        let prev = regions.drop_last();
        law_line_cursors(prev, start_pos, pos, last_pos);
        let before = line_cursors(prev, start_pos, pos, last_pos);
        let cur = line_cursors(regions, start_pos, pos, last_pos);
        let r = regions.last();
        assert forall|i: int|
            0 <= i < regions.len() && ((!(#[trigger] regions[i]).is_upstream_spec() && start_pos <= regions[i].end
                < pos) || (regions[i].is_upstream_spec() && start_pos < regions[i].end <= pos)) implies cur.contains(
            (regions[i].end - start_pos) as usize,
        ) by {
            if i < prev.len() {
                assert(prev[i] == regions[i]);
                let k = choose|k: int| 0 <= k < before.len() && before[k] == (regions[i].end - start_pos) as usize;
                if shows_cursor(r, start_pos, pos, last_pos) {
                    assert(cur[k] == before[k]);
                }
            } else {
                assert(regions[i] == r);
                assert(cur[before.len() as int] == (r.end - start_pos) as usize);
            }
        }
        assert forall|j: int| 0 <= j < cur.len() implies #[trigger] cur[j] <= pos - start_pos by {
            if j < before.len() {
                assert(cur[j] == before[j]);
            }
        }
    }
}

/// The cursors and selections of the line from `start_pos` to `pos`,
/// given the regions that touch it; `last_pos` is the end of the text.
pub fn encode_line_selection(regions: &[SelRegion], start_pos: usize, pos: usize, last_pos: usize) -> (r: (
    Vec<usize>,
    Vec<(usize, usize)>,
))
    requires
        start_pos <= pos,
    ensures
        r.0@ == line_cursors(regions@, start_pos, pos, last_pos),
        r.1@ == line_selections(regions@, start_pos, pos),
{
    let mut cursors: Vec<usize> = Vec::new();
    let mut selections: Vec<(usize, usize)> = Vec::new();
    let mut i: usize = 0;
    while i < regions.len()
        invariant
            i <= regions@.len(),
            start_pos <= pos,
            cursors@ == line_cursors(regions@.take(i as int), start_pos, pos, last_pos),
            selections@ == line_selections(regions@.take(i as int), start_pos, pos),
        decreases regions.len() - i,
    {
        let region = regions[i];
        proof {
            assert(regions@.take(i + 1).drop_last() =~= regions@.take(i as int));
        }
        let c = region.end;
        if (c > start_pos && c < pos) || (!region.is_upstream() && c == start_pos) || (
        region.is_upstream() && c == pos) || (c == pos && c == last_pos) {
            cursors.push(c - start_pos);
        }
        let sel_start_ix = clamp(region.min(), start_pos, pos) - start_pos;
        let sel_end_ix = clamp(region.max(), start_pos, pos) - start_pos;
        if sel_end_ix > sel_start_ix {
            selections.push((sel_start_ix, sel_end_ix));
        }
        i += 1;
    }
    proof {
        assert(regions@.take(i as int) =~= regions@);
    }
    (cursors, selections)
}

/// The find highlights as styled runs: those of the `k`-th search get
/// style `k + 1`.
pub open spec fn highlight_runs(hls: Seq<Seq<(usize, usize)>>) -> Seq<(usize, usize, usize)>
    decreases hls.len(),
{
    if hls.len() == 0 {
        Seq::empty()
    } else {
        highlight_runs(hls.drop_last()) + hls.last().map_values(
            |p: (usize, usize)| (p.0, p.1, hls.len() as usize),
        )
    }
}

/// All styled runs of a line, in the order they are encoded: find
/// highlights, then selections (style 0), then the text's style spans.
pub open spec fn style_runs(
    hls: Seq<Seq<(usize, usize)>>,
    sel: Seq<(usize, usize)>,
    spans: Seq<(usize, usize, usize)>,
) -> Seq<(usize, usize, usize)> {
    highlight_runs(hls) + sel.map_values(|p: (usize, usize)| (p.0, p.1, 0usize)) + spans
}

/// Runs that do not overlap and come in order.
pub open spec fn runs_in_order(runs: Seq<(usize, usize, usize)>) -> bool {
    &&& forall|i: int| 0 <= i < runs.len() ==> #[trigger] runs[i].0 <= runs[i].1
    &&& forall|i: int| 0 < i < runs.len() ==> runs[i - 1].1 <= #[trigger] runs[i].0
}

/// The encoding of runs: for each, the gap since the end of the one
/// before, its length and its style.
pub open spec fn encode_runs(runs: Seq<(usize, usize, usize)>) -> Seq<usize>
    decreases runs.len(),
{
    if runs.len() == 0 {
        Seq::empty()
    } else {
        let last = runs.last();
        let prev_end: int = if runs.len() > 1 { runs[runs.len() - 2].1 as int } else { 0 };
        encode_runs(runs.drop_last()) + seq![(last.0 - prev_end) as usize, (last.1 - last.0) as usize, last.2]
    }
}

/// Encodes the styles of a line as triples of gap, length and style: the
/// find highlights `hls` (style of the `k`-th search `k + 1`), then the
/// selections `sel` (style 0), then the style spans of the text, each
/// given as start, end and style.
pub fn encode_styles(
    sel: &[(usize, usize)],
    hls: &Vec<Vec<(usize, usize)>>,
    spans: &[(usize, usize, usize)],
) -> (encoded: Vec<usize>)
    requires
        runs_in_order(style_runs(hls@.map_values(|v: Vec<(usize, usize)>| v@), sel@, spans@)),
        hls@.len() < usize::MAX,
    ensures
        encoded@ == encode_runs(style_runs(hls@.map_values(|v: Vec<(usize, usize)>| v@), sel@, spans@)),
{
    let ghost hv = hls@.map_values(|v: Vec<(usize, usize)>| v@);
    let ghost all = style_runs(hv, sel@, spans@);
    let mut runs: Vec<(usize, usize, usize)> = Vec::new();
    let mut index: usize = 0;
    while index < hls.len()
        invariant
            index <= hls@.len(),
            hls@.len() < usize::MAX,
            hv == hls@.map_values(|v: Vec<(usize, usize)>| v@),
            runs@ == highlight_runs(hv.take(index as int)),
        decreases hls.len() - index,
    {
        let cur = &hls[index];
        let ghost before = runs@;
        let mut j: usize = 0;
        while j < cur.len()
            invariant
                j <= cur@.len(),
                index < hls@.len(),
                hls@.len() < usize::MAX,
                runs@ == before + cur@.take(j as int).map_values(
                    |p: (usize, usize)| (p.0, p.1, (index + 1) as usize),
                ),
            decreases cur.len() - j,
        {
            let (a, b) = cur[j];
            runs.push((a, b, index + 1));
            proof {
                assert(cur@.take(j + 1).map_values(|p: (usize, usize)| (p.0, p.1, (index + 1) as usize))
                    =~= cur@.take(j as int).map_values(
                    |p: (usize, usize)| (p.0, p.1, (index + 1) as usize),
                ).push((a, b, (index + 1) as usize)));
            }
            j += 1;
        }
        proof {
            assert(cur@.take(j as int) =~= cur@);
            assert(hv.take(index + 1).drop_last() =~= hv.take(index as int));
            assert(hv.take(index + 1).last() == cur@);
        }
        index += 1;
    }
    proof {
        assert(hv.take(index as int) =~= hv);
    }
    let ghost after_hls = runs@;
    let mut k: usize = 0;
    while k < sel.len()
        invariant
            k <= sel@.len(),
            runs@ == after_hls + sel@.take(k as int).map_values(|p: (usize, usize)| (p.0, p.1, 0usize)),
        decreases sel.len() - k,
    {
        let (a, b) = sel[k];
        runs.push((a, b, 0));
        proof {
            assert(sel@.take(k + 1).map_values(|p: (usize, usize)| (p.0, p.1, 0usize)) =~= sel@.take(
                k as int,
            ).map_values(|p: (usize, usize)| (p.0, p.1, 0usize)).push((a, b, 0usize)));
        }
        k += 1;
    }
    proof {
        assert(sel@.take(k as int) =~= sel@);
    }
    let ghost after_sel = runs@;
    let mut m: usize = 0;
    while m < spans.len()
        invariant
            m <= spans@.len(),
            runs@ == after_sel + spans@.take(m as int),
        decreases spans.len() - m,
    {
        runs.push(spans[m]);
        proof {
            assert(spans@.take(m + 1) =~= spans@.take(m as int).push(spans@[m as int]));
        }
        m += 1;
    }
    proof {
        assert(spans@.take(m as int) =~= spans@);
        assert(runs@ =~= all);
    }
    let mut encoded: Vec<usize> = Vec::new();
    let mut ix: usize = 0;
    let mut i: usize = 0;
    while i < runs.len()
        invariant
            i <= runs@.len(),
            runs@ == all,
            runs_in_order(all),
            encoded@ == encode_runs(runs@.take(i as int)),
            ix == (if i > 0 { runs@[i - 1].1 } else { 0 }),
        decreases runs.len() - i,
    {
        let (start, end, style) = runs[i];
        proof {
            assert(runs@.take(i + 1).drop_last() =~= runs@.take(i as int));
            assert(runs@[i as int].0 <= runs@[i as int].1);
            if i > 0 {
                assert(runs@[i - 1].1 <= runs@[i as int].0);
            }
        }
        encoded.push(start - ix);
        encoded.push(end - start);
        encoded.push(style);
        proof {
            let t = runs@.take(i + 1);
            assert(t.last() == runs@[i as int]);
            if i > 0 {
                assert(t[t.len() - 2] == runs@[i - 1]);
            }
            assert(encoded@ =~= encode_runs(runs@.take(i as int)) + seq![
                (start - ix) as usize,
                (end - start) as usize,
                style,
            ]);
        }
        ix = end;
        i += 1;
    }
    proof {
        assert(runs@.take(i as int) =~= runs@);
    }
    encoded
}

/// The text of a cached line is valid.
pub const TEXT_VALID: u8 = 1;
/// The styles of a cached line are valid.
pub const STYLES_VALID: u8 = 2;
/// The cursors of a cached line are valid.
pub const CURSOR_VALID: u8 = 4;
/// Everything about a cached line is valid.
pub const ALL_VALID: u8 = 7;

/// What to do with a span of lines of the frontend's cache.
#[derive(Debug, Clone, Copy, PartialEq, Eq, Structural)]
pub enum RenderTactic {
    /// Discard all content for this span.
    Discard,
    /// Preserve existing content.
    Preserve,
    /// Render content if it is invalid.
    Render,
}

/// A span of lines with what the frontend's cache holds of them and what
/// to do with them.
#[derive(Debug, Clone, Copy, PartialEq, Eq, Structural)]
pub struct PlanSegment {
    /// Line number of the start of the span in the view.
    pub our_line_num: usize,
    /// Line number of the start of the span in the frontend's cache.
    pub their_line_num: usize,
    /// Number of lines in the span.
    pub n: usize,
    /// What to do with the span.
    pub tactic: RenderTactic,
    /// Which parts of the cached lines are valid.
    pub validity: u8,
    /// The logical line (0-based) where the span starts in the view.
    pub logical_line: usize,
}

/// One operation of an update sent to the frontend. Lines to update or
/// insert are given by where they start in the view and how many there
/// are; the caller encodes them.
#[derive(Debug, Clone, Copy, PartialEq, Eq, Structural)]
pub enum UpdateStep {
    /// Invalidate `n` lines.
    Invalidate(usize),
    /// Skip `n` lines of the old cache.
    Skip(usize),
    /// Copy `n` lines of the old cache; the first has this line number.
    Copy(usize, usize),
    /// Replace the cursors of `n` lines from the view's line `start`; the
    /// first has this line number, when it is not the first line.
    Update { start: usize, n: usize, first_line_number: Option<usize> },
    /// Insert `n` lines from the view's line `start`, rendered in full.
    Insert { start: usize, n: usize },
}

/// A span of the frontend's cache after an update: `n` lines from line
/// `start` of the view, with this validity.
#[derive(Debug, Clone, Copy, PartialEq, Eq, Structural)]
pub struct ShadowSpan {
    pub n: usize,
    pub start: usize,
    pub validity: u8,
}

/// Whether the cached text and styles of a segment are valid.
pub open spec fn text_and_styles_valid(seg: PlanSegment) -> bool {
    seg.validity & TEXT_VALID != 0 && seg.validity & STYLES_VALID != 0
}

/// The update for segments, the cache spans after it, and how far into
/// the old cache the update has gone.
pub open spec fn plan(segs: Seq<PlanSegment>) -> (Seq<UpdateStep>, Seq<ShadowSpan>, int)
    decreases segs.len(),
{
    if segs.len() == 0 {
        (Seq::empty(), Seq::empty(), 0)
    } else {
        let (ops, spans, line_num) = plan(segs.drop_last());
        let seg = segs.last();
        match seg.tactic {
            RenderTactic::Discard => (
                ops.push(UpdateStep::Invalidate(seg.n)),
                spans.push(ShadowSpan { n: seg.n, start: 0, validity: 0 }),
                line_num,
            ),
            _ => if text_and_styles_valid(seg) {
                let n_skip = seg.their_line_num - line_num;
                let skipped = if n_skip > 0 { ops.push(UpdateStep::Skip(n_skip as usize)) } else { ops };
                let op = if seg.validity & CURSOR_VALID != 0 {
                    UpdateStep::Copy(seg.n, (seg.logical_line + 1) as usize)
                } else {
                    UpdateStep::Update {
                        start: seg.our_line_num,
                        n: seg.n,
                        first_line_number: if seg.logical_line == 0 {
                            None
                        } else {
                            Some((seg.logical_line + 1) as usize)
                        },
                    }
                };
                (
                    skipped.push(op),
                    spans.push(ShadowSpan { n: seg.n, start: seg.our_line_num, validity: seg.validity }),
                    seg.their_line_num + seg.n,
                )
            } else if seg.tactic == RenderTactic::Preserve {
                (
                    ops.push(UpdateStep::Invalidate(seg.n)),
                    spans.push(ShadowSpan { n: seg.n, start: 0, validity: 0 }),
                    line_num,
                )
            } else {
                (
                    ops.push(UpdateStep::Insert { start: seg.our_line_num, n: seg.n }),
                    spans.push(ShadowSpan { n: seg.n, start: seg.our_line_num, validity: ALL_VALID }),
                    line_num,
                )
            },
        }
    }
}

/// The segments can be planned with machine integers: the old cache is
/// walked forward, and line numbers stay in range.
pub open spec fn plan_fits(segs: Seq<PlanSegment>) -> bool
    decreases segs.len(),
{
    if segs.len() == 0 {
        true
    } else {
        let seg = segs.last();
        &&& plan_fits(segs.drop_last())
        &&& (seg.tactic != RenderTactic::Discard && text_and_styles_valid(seg)) ==> {
            &&& seg.their_line_num >= plan(segs.drop_last()).2
            &&& seg.their_line_num + seg.n <= usize::MAX
            &&& seg.logical_line + 1 <= usize::MAX
        }
    }
}

/// Plans the update that brings the frontend's cache in line with the
/// view, segment by segment: discarded spans are invalidated; spans whose
/// cached text and styles are valid are skipped to and copied, or have
/// their cursors updated; other spans are invalidated when preserved and
/// rendered anew when to be rendered. Also gives the cache's spans after
/// the update.
pub fn plan_update(segs: &[PlanSegment]) -> (r: (Vec<UpdateStep>, Vec<ShadowSpan>))
    requires
        plan_fits(segs@),
    ensures
        r.0@ == plan(segs@).0,
        r.1@ == plan(segs@).1,
{
    let mut ops: Vec<UpdateStep> = Vec::new();
    let mut spans: Vec<ShadowSpan> = Vec::new();
    let mut line_num: usize = 0;
    let mut i: usize = 0;
    while i < segs.len()
        invariant
            i <= segs@.len(),
            plan_fits(segs@),
            (ops@, spans@, line_num as int) == plan(segs@.take(i as int)),
        decreases segs.len() - i,
    {
        let seg = segs[i];
        proof {
            assert(segs@.take(i + 1).drop_last() =~= segs@.take(i as int));
            lemma_plan_fits_prefix(segs@, i + 1);
        }
        match seg.tactic {
            RenderTactic::Discard => {
                ops.push(UpdateStep::Invalidate(seg.n));
                spans.push(ShadowSpan { n: seg.n, start: 0, validity: 0 });
            },
            _ => {
                if (seg.validity & TEXT_VALID) != 0 && (seg.validity & STYLES_VALID) != 0 {
                    let n_skip = seg.their_line_num - line_num;
                    if n_skip > 0 {
                        ops.push(UpdateStep::Skip(n_skip));
                    }
                    if (seg.validity & CURSOR_VALID) != 0 {
                        ops.push(UpdateStep::Copy(seg.n, seg.logical_line + 1));
                    } else {
                        let first_line_number = if seg.logical_line == 0 {
                            None
                        } else {
                            Some(seg.logical_line + 1)
                        };
                        ops.push(UpdateStep::Update { start: seg.our_line_num, n: seg.n, first_line_number });
                    }
                    spans.push(ShadowSpan { n: seg.n, start: seg.our_line_num, validity: seg.validity });
                    line_num = seg.their_line_num + seg.n;
                } else if seg.tactic == RenderTactic::Preserve {
                    ops.push(UpdateStep::Invalidate(seg.n));
                    spans.push(ShadowSpan { n: seg.n, start: 0, validity: 0 });
                } else {
                    ops.push(UpdateStep::Insert { start: seg.our_line_num, n: seg.n });
                    spans.push(ShadowSpan { n: seg.n, start: seg.our_line_num, validity: ALL_VALID });
                }
            },
        }
        i += 1;
    }
    proof {
        assert(segs@.take(i as int) =~= segs@);
    }
    (ops, spans)
}

proof fn lemma_plan_fits_prefix(segs: Seq<PlanSegment>, k: int)
    requires
        plan_fits(segs),
        0 <= k <= segs.len(),
    ensures
        plan_fits(segs.take(k)),
    decreases segs.len() - k,
{
    if k < segs.len() {
        assert(segs.drop_last().take(k) =~= segs.take(k));
        lemma_plan_fits_prefix(segs.drop_last(), k);
    } else {
        assert(segs.take(k) =~= segs);
    }
}

/// The region a range selection or drag makes from where it started, the
/// smallest and largest offsets of the unit it started on, to the unit
/// `(min_end, max_end)` that holds `offset`: forward when the offset is
/// not before the start, backward otherwise.
pub fn range_region(start: (usize, usize), offset: usize, end: (usize, usize)) -> (r: SelRegion)
    ensures
        r == (if offset >= start.0 {
            SelRegion::new_spec(start.0, end.1)
        } else {
            SelRegion::new_spec(start.1, end.0)
        }),
{
    let (min_start, max_start) = start;
    let (min_end, max_end) = end;
    if offset >= min_start {
        SelRegion::new(min_start, max_end)
    } else {
        SelRegion::new(max_start, min_end)
    }
}

/// The offset of the caret when the selection is a single caret.
pub fn get_caret_offset(regions: &[SelRegion]) -> (r: Option<usize>)
    ensures
        r == (if regions@.len() == 1 && regions@[0].is_caret_spec() {
            Some(regions@[0].start)
        } else {
            None
        }),
{
    if regions.len() == 1 && regions[0].is_caret() {
        Some(regions[0].start)
    } else {
        None
    }
}

/// The lines, from the first up to but not including the second, whose
/// styles change when the styles of bytes `start..end` change: from the line
/// of `start` through the line of `end`, that last line left out when `end`
/// is where it starts.
pub fn invalidate_styles<L: LineOffset>(lo: &L, text: &Text, start: usize, end: usize) -> (r: (
    usize,
    usize,
))
    requires
        start <= text_bytes(*text).len(),
        end <= text_bytes(*text).len(),
        char_boundary(text_bytes(*text), start as int),
        char_boundary(text_bytes(*text), end as int),
        text_bytes(*text).len() < usize::MAX,
    ensures
        r.0 == lo.spec_line_of_offset(text_bytes(*text), start as int),
        r.1 == lo.spec_line_of_offset(text_bytes(*text), end as int) + (if end > lo.spec_offset_of_line(
            text_bytes(*text),
            lo.spec_line_of_offset(text_bytes(*text), end as int),
        ) {
            1int
        } else {
            0int
        }),
{
    let first_line = lo.line_of_offset(text, start);
    let last_line = lo.line_of_offset(text, end);
    let line_start = lo.offset_of_line(text, last_line);
    if end > line_start {
        (first_line, last_line + 1)
    } else {
        (first_line, last_line)
    }
}

/// Whether every region of a selection is a caret.
pub open spec fn all_carets(regions: Seq<SelRegion>) -> bool {
    forall|i: int| 0 <= i < regions.len() ==> (#[trigger] regions[i]).is_caret_spec()
}

/// What a change of the selection makes invalid in the frontend's cache:
/// the lines from the line of the first region's start up to and including
/// the line of the last region's end, and there the cursors, with the
/// styles too unless every region is a caret.
pub fn invalidate_selection<L: LineOffset>(lo: &L, text: &Text, regions: &[SelRegion]) -> (r: (
    usize,
    usize,
    u8,
))
    requires
        regions@.len() > 0,
        regions@[0].spec_min() <= text_bytes(*text).len(),
        regions@.last().spec_max() <= text_bytes(*text).len(),
        region_on_boundaries(regions@[0], text_bytes(*text)),
        region_on_boundaries(regions@.last(), text_bytes(*text)),
        text_bytes(*text).len() < usize::MAX,
    ensures
        r.0 == lo.spec_line_of_offset(text_bytes(*text), regions@[0].spec_min() as int),
        r.1 == lo.spec_line_of_offset(text_bytes(*text), regions@.last().spec_max() as int) + 1,
        r.2 == (if all_carets(regions@) {
            CURSOR_VALID
        } else {
            CURSOR_VALID | STYLES_VALID
        }),
{
    let first_line = lo.line_of_offset(text, regions[0].min());
    let last_line = lo.line_of_offset(text, regions[regions.len() - 1].max()) + 1;
    let mut all_caret = true;
    let mut i: usize = 0;
    while i < regions.len()
        invariant
            i <= regions@.len(),
            all_caret == (forall|j: int| 0 <= j < i ==> (#[trigger] regions@[j]).is_caret_spec()),
        decreases regions@.len() - i,
    {
        if !regions[i].is_caret() {
            all_caret = false;
        }
        i += 1;
    }
    let invalid = if all_caret {
        CURSOR_VALID
    } else {
        CURSOR_VALID | STYLES_VALID
    };
    (first_line, last_line, invalid)
}

} // verus!

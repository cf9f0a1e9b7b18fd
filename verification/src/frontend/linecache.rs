//! Client-side cache of rendered lines, kept in step with the core by
//! applying the operations of each buffer update.

use vstd::prelude::*;

use crate::annotations::{AnnotationRange, AnnotationSlice, AnnotationType};
use crate::client::{Line, LineUpdate, OpType, Update, UpdateOp};
pub use crate::utf16::count_utf16;
use crate::utf16::{count_utf16_in, lemma_utf16_len_bound, lemma_utf16_len_concat};
use vstd::string::StringSliceAdditionalSpecFns;
use vstd::utf8::{encode_utf8, is_char_boundary};

verus! {

/// A selected span of one cached line, in byte columns.
#[derive(Debug)]
pub struct Selection {
    line_num: usize,
    start_col: usize,
    end_col: usize,
}

impl Selection {
    pub closed spec fn spec_line_num(&self) -> usize {
        self.line_num
    }

    pub closed spec fn spec_start_col(&self) -> usize {
        self.start_col
    }

    pub closed spec fn spec_end_col(&self) -> usize {
        self.end_col
    }

    pub fn line_num(&self) -> (n: usize)
        ensures
            n == self.spec_line_num(),
    {
        self.line_num
    }

    pub fn start_col(&self) -> (c: usize)
        ensures
            c == self.spec_start_col(),
    {
        self.start_col
    }

    pub fn end_col(&self) -> (c: usize)
        ensures
            c == self.spec_end_col(),
    {
        self.end_col
    }
}

#[derive(Debug)]
pub struct LineCache {
    lines: Vec<Option<LineUpdate>>,
    annotations: Vec<AnnotationSlice>,
    selections: Vec<Selection>,
}

/// The next line the old cache hands out at read position `pos`; a read
/// past its end gives an invalid line.
pub open spec fn next_old(old: Seq<Option<Line>>, pos: int) -> Option<Line> {
    if 0 <= pos < old.len() {
        old[pos]
    } else {
        None
    }
}

/// How many lines of the old cache an operation consumes.
pub open spec fn op_consumes(op: UpdateOp) -> nat {
    match op.op {
        OpType::Copy => op.n as nat,
        OpType::Skip => op.n as nat,
        OpType::Update => if op.lines is Some { 1 } else { 0 },
        _ => 0,
    }
}

/// How many lines of the old cache a sequence of operations consumes.
pub open spec fn ops_consume(ops: Seq<UpdateOp>) -> nat
    decreases ops.len(),
{
    if ops.len() == 0 {
        0
    } else {
        ops_consume(ops.drop_last()) + op_consumes(ops.last())
    }
}

/// The lines an operation appends to the new cache when the old cache is
/// read from position `pos`.
pub open spec fn op_output(old: Seq<Option<Line>>, pos: int, op: UpdateOp) -> Seq<Option<Line>> {
    match op.op {
        OpType::Insert => match op.lines {
            Some(ls) => ls@.map_values(|l: Line| Some(l)),
            None => Seq::empty(),
        },
        OpType::Copy => Seq::new(op.n as nat, |i: int| next_old(old, pos + i)),
        OpType::Skip => Seq::empty(),
        OpType::Invalidate => Seq::new(op.n as nat, |i: int| None),
        OpType::Update => if op.lines is Some {
            seq![next_old(old, pos)]
        } else {
            Seq::empty()
        },
    }
}

/// The cache built from `old` by a sequence of operations.
pub open spec fn apply_ops(old: Seq<Option<Line>>, ops: Seq<UpdateOp>) -> Seq<Option<Line>>
    decreases ops.len(),
{
    if ops.len() == 0 {
        Seq::empty()
    } else {
        apply_ops(old, ops.drop_last()) + op_output(
            old,
            ops_consume(ops.drop_last()) as int,
            ops.last(),
        )
    }
}

/// The text of cached line `n`, when the line is valid and carries text.
pub open spec fn cached_text(lines: Seq<Option<Line>>, n: int) -> Option<Seq<char>> {
    if 0 <= n < lines.len() && lines[n] is Some && lines[n]->0.text is Some {
        Some(lines[n]->0.text->0@)
    } else {
        None
    }
}

/// The columns of a range, smaller first.
pub open spec fn ordered_cols(r: AnnotationRange) -> (usize, usize) {
    if r.start_col > r.end_col {
        (r.end_col, r.start_col)
    } else {
        (r.start_col, r.end_col)
    }
}

/// A column clamped to a line of `len` bytes.
pub open spec fn clamp_col(c: usize, len: nat) -> usize {
    if c >= len {
        len as usize
    } else {
        c
    }
}

/// The clamped byte columns a range selects on a line of `len` bytes.
pub open spec fn selected_cols(r: AnnotationRange, len: nat) -> (usize, usize) {
    (clamp_col(ordered_cols(r).0, len), clamp_col(ordered_cols(r).1, len))
}

/// The number of lines a range spans.
pub open spec fn range_line_count(r: AnnotationRange) -> nat {
    if r.end_line + 1 > r.start_line {
        (r.end_line + 1 - r.start_line) as nat
    } else {
        0
    }
}

/// A selection range can be mapped onto line `n` of the cache: slicing the
/// line's text at the clamped columns does not split a character.
pub open spec fn selection_fits_line(lines: Seq<Option<Line>>, r: AnnotationRange, n: int) -> bool {
    match cached_text(lines, n) {
        Some(t) => {
            let bytes = encode_utf8(t);
            let (s, e) = selected_cols(r, bytes.len());
            &&& bytes.len() <= isize::MAX
            &&& is_char_boundary(bytes, s as int)
            &&& is_char_boundary(bytes, e as int)
        },
        None => true,
    }
}

/// A selection range can be mapped onto every line it spans.
pub open spec fn selection_range_fits(lines: Seq<Option<Line>>, r: AnnotationRange) -> bool {
    &&& r.end_line < usize::MAX
    &&& forall|n: int|
        r.start_line <= n <= r.end_line ==> #[trigger] selection_fits_line(lines, r, n)
}

/// Every selection annotation of an update can be mapped onto the cache.
pub open spec fn selections_fit(lines: Seq<Option<Line>>, annos: Seq<AnnotationSlice>) -> bool {
    forall|a: int, j: int|
        0 <= a < annos.len() && annos[a].annotation_type == AnnotationType::Selection && 0 <= j
            < annos[a].ranges@.len() ==> #[trigger] selection_range_fits(
            lines,
            annos[a].ranges@[j],
        )
}

/// The selection recorded for line `n` of the cache under range `r`.
pub closed spec fn selection_on_line(lines: Seq<Option<Line>>, r: AnnotationRange, n: int) -> Seq<Selection> {
    match cached_text(lines, n) {
        Some(t) => {
            let (s, e) = selected_cols(r, encode_utf8(t).len());
            seq![Selection { line_num: n as usize, start_col: s, end_col: e }]
        },
        None => Seq::empty(),
    }
}

/// Selections recorded for the first `k` lines a range spans.
pub closed spec fn range_selections(lines: Seq<Option<Line>>, r: AnnotationRange, k: nat) -> Seq<Selection>
    decreases k,
{
    if k == 0 {
        Seq::empty()
    } else {
        range_selections(lines, r, (k - 1) as nat) + selection_on_line(
            lines,
            r,
            r.start_line + k - 1,
        )
    }
}

/// Selections recorded for a sequence of ranges.
pub closed spec fn ranges_selections(lines: Seq<Option<Line>>, ranges: Seq<AnnotationRange>) -> Seq<Selection>
    decreases ranges.len(),
{
    if ranges.len() == 0 {
        Seq::empty()
    } else {
        ranges_selections(lines, ranges.drop_last()) + range_selections(
            lines,
            ranges.last(),
            range_line_count(ranges.last()),
        )
    }
}

/// Selections recorded for the selection annotations of an update.
pub closed spec fn annotation_selections(lines: Seq<Option<Line>>, annos: Seq<AnnotationSlice>) -> Seq<Selection>
    decreases annos.len(),
{
    if annos.len() == 0 {
        Seq::empty()
    } else {
        annotation_selections(lines, annos.drop_last()) + if annos.last().annotation_type
            == AnnotationType::Selection {
            ranges_selections(lines, annos.last().ranges@)
        } else {
            Seq::empty()
        }
    }
}

/// Type and ranges of the annotations an update carries other than selections.
pub open spec fn other_annotations(annos: Seq<AnnotationSlice>) -> Seq<(AnnotationType, Seq<AnnotationRange>)>
    decreases annos.len(),
{
    if annos.len() == 0 {
        Seq::empty()
    } else {
        other_annotations(annos.drop_last()) + if annos.last().annotation_type
            == AnnotationType::Selection {
            Seq::empty()
        } else {
            seq![(annos.last().annotation_type, annos.last().ranges@)]
        }
    }
}

/// Hands out the line of the old cache at the read position and advances it.
fn take_old(old_lines: &mut Vec<Option<Line>>, pos: &mut usize, Ghost(orig): Ghost<Seq<Option<Line>>>) -> (item: Option<Line>)
    requires
        *old(pos) <= old(old_lines)@.len(),
        old(old_lines)@.len() == orig.len(),
        forall|j: int| *old(pos) <= j < orig.len() ==> old(old_lines)@[j] == orig[j],
    ensures
        item == next_old(orig, *old(pos) as int),
        *final(pos) == if *old(pos) < orig.len() { *old(pos) + 1 } else { *old(pos) as int },
        final(old_lines)@.len() == orig.len(),
        forall|j: int| *final(pos) <= j < orig.len() ==> final(old_lines)@[j] == orig[j],
{
    if *pos < old_lines.len() {
        let mut item: Option<Line> = None;
        old_lines.set_and_swap(*pos, &mut item);
        *pos = *pos + 1;
        item
    } else {
        None
    }
}

proof fn lemma_next_old_clamped(old: Seq<Option<Line>>, p: nat)
    ensures
        next_old(old, p as int) == next_old(old, if p < old.len() { p as int } else { old.len() as int }),
{
}

impl LineCache {
    pub closed spec fn spec_lines(&self) -> Seq<Option<Line>> {
        self.lines@
    }

    pub closed spec fn spec_selections(&self) -> Seq<Selection> {
        self.selections@
    }

    /// Type and ranges of the annotations held, other than selections.
    pub closed spec fn spec_annotations(&self) -> Seq<(AnnotationType, Seq<AnnotationRange>)> {
        self.annotations@.map_values(|a: AnnotationSlice| (a.annotation_type, a.ranges@))
    }

    /// An empty cache.
    pub fn new() -> (cache: Self)
        ensures
            cache.spec_lines().len() == 0,
            cache.spec_selections().len() == 0,
            cache.spec_annotations().len() == 0,
    {
        let cache = Self { lines: Vec::new(), annotations: Vec::new(), selections: Vec::new() };
        assert(cache.spec_annotations() =~= Seq::empty());
        cache
    }

    fn push_opt_line(&mut self, line: Option<LineUpdate>)
        ensures
            final(self).lines@ == old(self).lines@.push(line),
            final(self).annotations == old(self).annotations,
            final(self).selections == old(self).selections,
    {
        self.lines.push(line);
    }

    /// Rebuilds the cache from the operations of `update`, then records the
    /// selections and the other annotations it carries. Selections and
    /// annotations held before are dropped.
    pub fn apply_update(&mut self, update: Update)
        requires
            selections_fit(apply_ops(old(self).spec_lines(), update.ops@), update.annotations@),
        ensures
            final(self).spec_lines() == apply_ops(old(self).spec_lines(), update.ops@),
            final(self).spec_selections() == annotation_selections(
                final(self).spec_lines(),
                update.annotations@,
            ),
            final(self).spec_annotations() == other_annotations(update.annotations@),
    {
        let ghost old_view = self.lines@;
        let ghost all_ops = update.ops@;
        let ghost all_annos = update.annotations@;
        let Update { ops, pristine: _, annotations } = update;
        let mut ops = ops;
        let mut old_lines: Vec<Option<Line>> = Vec::new();
        std::mem::swap(&mut old_lines, &mut self.lines);
        self.annotations = Vec::new();
        self.selections = Vec::new();
        let mut pos: usize = 0;
        let mut i: usize = 0;
        while i < ops.len()
            invariant
                ops@.len() == all_ops.len(),
                i <= ops@.len(),
                forall|j: int| i <= j < all_ops.len() ==> ops@[j] == all_ops[j],
                old_lines@.len() == old_view.len(),
                pos <= old_view.len(),
                pos == if ops_consume(all_ops.take(i as int)) < old_view.len() {
                    ops_consume(all_ops.take(i as int)) as int
                } else {
                    old_view.len() as int
                },
                forall|j: int| pos <= j < old_view.len() ==> old_lines@[j] == old_view[j],
                self.lines@ == apply_ops(old_view, all_ops.take(i as int)),
                self.annotations@.len() == 0,
                self.selections@.len() == 0,
            decreases ops@.len() - i,
        {
            let mut o = UpdateOp::skip(0);
            ops.set_and_swap(i, &mut o);
            let ghost base: nat = ops_consume(all_ops.take(i as int));
            let ghost before = self.lines@;
            proof {
                assert(all_ops.take(i + 1).drop_last() =~= all_ops.take(i as int));
                assert(all_ops.take(i + 1).last() == o);
            }
            let n = o.n;
            match o.op {
                OpType::Insert => {
                    if let Some(lines) = o.lines {
                        let mut lines = lines;
                        let ghost ls = lines@;
                        let mut k: usize = 0;
                        while k < lines.len()
                            invariant
                                lines@.len() == ls.len(),
                                k <= ls.len(),
                                forall|j: int| k <= j < ls.len() ==> lines@[j] == ls[j],
                                self.lines@ == before + ls.take(k as int).map_values(|l: Line| Some(l)),
                                self.annotations@.len() == 0,
                                self.selections@.len() == 0,
                            decreases ls.len() - k,
                        {
                            let mut line = Line::empty();
                            lines.set_and_swap(k, &mut line);
                            self.push_opt_line(Some(line));
                            k += 1;
                            assert(ls.take(k as int).map_values(|l: Line| Some(l)) =~= ls.take(
                                k - 1,
                            ).map_values(|l: Line| Some(l)).push(Some(ls[k - 1])));
                        }
                        assert(ls.take(k as int) =~= ls);
                    }
                    assert(self.lines@ =~= before + op_output(old_view, base as int, o));
                },
                OpType::Copy => {
                    let mut k: usize = 0;
                    while k < n
                        invariant
                            k <= n,
                            old_lines@.len() == old_view.len(),
                            pos <= old_view.len(),
                            pos == if base + k < old_view.len() {
                                (base + k) as int
                            } else {
                                old_view.len() as int
                            },
                            forall|j: int| pos <= j < old_view.len() ==> old_lines@[j] == old_view[j],
                            self.lines@ == before + Seq::new(k as nat, |t: int| next_old(old_view, base + t)),
                            self.annotations@.len() == 0,
                            self.selections@.len() == 0,
                        decreases n - k,
                    {
                        let item = take_old(&mut old_lines, &mut pos, Ghost(old_view));
                        proof {
                            lemma_next_old_clamped(old_view, (base + k) as nat);
                        }
                        self.push_opt_line(item);
                        k += 1;
                        assert(self.lines@ =~= before + Seq::new(k as nat, |t: int| next_old(old_view, base + t)));
                    }
                    assert(self.lines@ =~= before + op_output(old_view, base as int, o));
                },
                OpType::Skip => {
                    let mut k: usize = 0;
                    while k < n
                        invariant
                            k <= n,
                            old_lines@.len() == old_view.len(),
                            pos <= old_view.len(),
                            pos == if base + k < old_view.len() {
                                (base + k) as int
                            } else {
                                old_view.len() as int
                            },
                            forall|j: int| pos <= j < old_view.len() ==> old_lines@[j] == old_view[j],
                            self.lines@ == before,
                            self.annotations@.len() == 0,
                            self.selections@.len() == 0,
                        decreases n - k,
                    {
                        let _ = take_old(&mut old_lines, &mut pos, Ghost(old_view));
                        k += 1;
                    }
                    assert(self.lines@ =~= before + op_output(old_view, base as int, o));
                },
                OpType::Invalidate => {
                    let mut k: usize = 0;
                    while k < n
                        invariant
                            k <= n,
                            self.lines@ == before + Seq::new(k as nat, |t: int| None::<Line>),
                            self.annotations@.len() == 0,
                            self.selections@.len() == 0,
                        decreases n - k,
                    {
                        self.push_opt_line(None);
                        k += 1;
                        assert(self.lines@ =~= before + Seq::new(k as nat, |t: int| None::<Line>));
                    }
                    assert(self.lines@ =~= before + op_output(old_view, base as int, o));
                },
                OpType::Update => {
                    if let Some(_lines) = o.lines {
                        let item = take_old(&mut old_lines, &mut pos, Ghost(old_view));
                        proof {
                            lemma_next_old_clamped(old_view, base);
                        }
                        if let Some(new_line) = item {
                            self.push_opt_line(Some(new_line));
                        } else {
                            self.push_opt_line(None);
                        }
                    }
                    assert(self.lines@ =~= before + op_output(old_view, base as int, o));
                },
            }
            i += 1;
        }
        assert(all_ops.take(i as int) =~= all_ops);
        let ghost lines_view = self.lines@;
        let mut a: usize = 0;
        while a < annotations.len()
            invariant
                a <= annotations@.len(),
                annotations@ == all_annos,
                self.lines@ == lines_view,
                selections_fit(lines_view, all_annos),
                self.selections@ == annotation_selections(lines_view, all_annos.take(a as int)),
                self.spec_annotations() == other_annotations(all_annos.take(a as int)),
            decreases annotations@.len() - a,
        {
            proof {
                assert(all_annos.take(a + 1).drop_last() =~= all_annos.take(a as int));
            }
            let anno = annotations[a].clone();
            match anno.annotation_type {
                AnnotationType::Selection => {
                    let ghost before = self.selections@;
                    let mut r: usize = 0;
                    while r < anno.ranges.len()
                        invariant
                            r <= anno.ranges@.len(),
                            anno.ranges@ == all_annos[a as int].ranges@,
                            all_annos[a as int].annotation_type == AnnotationType::Selection,
                            0 <= a < all_annos.len(),
                            self.lines@ == lines_view,
                            selections_fit(lines_view, all_annos),
                            self.selections@ == before + ranges_selections(lines_view, anno.ranges@.take(r as int)),
                            self.spec_annotations() == other_annotations(all_annos.take(a as int)),
                        decreases anno.ranges@.len() - r,
                    {
                        let range = anno.ranges[r];
                        proof {
                            assert(anno.ranges@.take(r + 1).drop_last() =~= anno.ranges@.take(r as int));
                            assert(anno.ranges@.take(r + 1).last() == range);
                            assert(selection_range_fits(lines_view, range));
                        }
                        let ghost sel_before = self.selections@;
                        let mut line_num: usize = range.start_line;
                        let end: usize = range.end_line + 1;
                        while line_num < end
                            invariant
                                end == range.end_line + 1,
                                selection_range_fits(lines_view, range),
                                range.start_line <= line_num,
                                line_num <= end || end <= range.start_line,
                                end <= range.start_line ==> line_num == range.start_line,
                                self.lines@ == lines_view,
                                self.selections@ == sel_before + range_selections(
                                    lines_view,
                                    range,
                                    (line_num - range.start_line) as nat,
                                ),
                                self.spec_annotations() == other_annotations(all_annos.take(a as int)),
                            decreases end - line_num,
                        {
                            let ghost k: nat = (line_num - range.start_line) as nat;
                            let ghost sel_mid = self.selections@;
                            assert(range.start_line <= line_num as int <= range.end_line);
                            assert(selection_fits_line(lines_view, range, line_num as int));
                            if line_num < self.lines.len() {
                                match &self.lines[line_num] {
                                    Some(line) => match &line.text {
                                        Some(text) => {
                                            let bytes = text.as_str().as_bytes();
                                            let len = bytes.len();
                                            let (start_col, end_col) = if range.start_col > range.end_col {
                                                (range.end_col, range.start_col)
                                            } else {
                                                (range.start_col, range.end_col)
                                            };
                                            let start_col = if start_col >= len { len } else { start_col };
                                            let end_col = if end_col >= len { len } else { end_col };
                                            let left_utf16 = count_utf16_in(bytes, 0, start_col);
                                            let width_utf16 = count_utf16_in(bytes, start_col, end_col);
                                            proof {
                                                lemma_utf16_len_concat(
                                                    bytes@.subrange(0, start_col as int),
                                                    bytes@.subrange(start_col as int, end_col as int),
                                                );
                                                assert(bytes@.subrange(0, start_col as int) + bytes@.subrange(
                                                    start_col as int,
                                                    end_col as int,
                                                ) =~= bytes@.subrange(0, end_col as int));
                                                lemma_utf16_len_bound(bytes@.subrange(0, end_col as int));
                                            }
                                            let _range_start_utf16 = left_utf16;
                                            let _range_end_utf16 = left_utf16 + width_utf16;
                                            self.selections.push(Selection { line_num, start_col, end_col });
                                        },
                                        None => {},
                                    },
                                    None => {},
                                }
                            }
                            line_num += 1;
                            assert(self.selections@ =~= sel_mid + selection_on_line(
                                lines_view,
                                range,
                                range.start_line + k,
                            ));
                        }
                        proof {
                            assert(range_line_count(range) == (line_num - range.start_line) as nat);
                        }
                        r += 1;
                        assert(self.selections@ =~= before + ranges_selections(
                            lines_view,
                            anno.ranges@.take(r as int),
                        ));
                    }
                    assert(anno.ranges@.take(r as int) =~= anno.ranges@);
                    assert(self.selections@ =~= annotation_selections(lines_view, all_annos.take(a + 1)));
                    assert(other_annotations(all_annos.take(a + 1)) =~= other_annotations(
                        all_annos.take(a as int),
                    ));
                },
                _ => {
                    let ghost before = self.spec_annotations();
                    self.annotations.push(anno.clone());
                    assert(self.spec_annotations() =~= before.push(
                        (anno.annotation_type, anno.ranges@),
                    ));
                    assert(self.spec_annotations() =~= other_annotations(all_annos.take(a + 1)));
                    assert(self.selections@ =~= annotation_selections(lines_view, all_annos.take(a + 1)));
                },
            }
            a += 1;
        }
        assert(all_annos.take(a as int) =~= all_annos);
    }

    /// The number of lines held.
    pub fn height(&self) -> (h: usize)
        ensures
            h == self.spec_lines().len(),
    {
        self.lines.len()
    }

    /// The line at `ix`, if it is held and valid.
    pub fn get_line(&self, ix: usize) -> (line: Option<&LineUpdate>)
        ensures
            line == (if ix < self.spec_lines().len() {
                match self.spec_lines()[ix as int] {
                    Some(l) => Some(&l),
                    None => None,
                }
            } else {
                None
            }),
    {
        if ix < self.lines.len() {
            self.lines[ix].as_ref()
        } else {
            None
        }
    }

    /// The selections recorded on line `line_num`, in the order recorded.
    pub fn get_selections(&self, line_num: usize) -> (sels: Vec<&Selection>)
        ensures
            sels@.map_values(|s: &Selection| *s) == self.spec_selections().filter(
                |s: Selection| s.spec_line_num() == line_num,
            ),
    {
        let mut sels: Vec<&Selection> = Vec::new();
        let mut i: usize = 0;
        while i < self.selections.len()
            invariant
                i <= self.selections@.len(),
                sels@.map_values(|s: &Selection| *s) == self.selections@.take(i as int).filter(
                    |s: Selection| s.spec_line_num() == line_num,
                ),
            decreases self.selections@.len() - i,
        {
            proof {
                reveal_with_fuel(Seq::filter, 1);
                assert(self.selections@.take(i + 1).drop_last() =~= self.selections@.take(i as int));
            }
            if self.selections[i].line_num == line_num {
                sels.push(&self.selections[i]);
            }
            i += 1;
            assert(sels@.map_values(|s: &Selection| *s) =~= self.selections@.take(i as int).filter(
                |s: Selection| s.spec_line_num() == line_num,
            ));
        }
        assert(self.selections@.take(i as int) =~= self.selections@);
        sels
    }

    /// Drops every line, selection and annotation.
    pub fn clear(&mut self)
        ensures
            final(self).spec_lines().len() == 0,
            final(self).spec_selections().len() == 0,
            final(self).spec_annotations().len() == 0,
    {
        self.selections.clear();
        self.lines.clear();
        self.annotations.clear();
        assert(self.spec_annotations() =~= Seq::empty());
    }
}


proof fn lemma_apply_single(old: Seq<Option<Line>>, op: UpdateOp)
    ensures
        apply_ops(old, seq![op]) == op_output(old, 0, op),
{
    assert(seq![op].drop_last() =~= Seq::<UpdateOp>::empty());
    assert(seq![op].last() == op);
    assert(apply_ops(old, Seq::<UpdateOp>::empty()) == Seq::<Option<Line>>::empty());
    assert(ops_consume(Seq::<UpdateOp>::empty()) == 0);
    assert(apply_ops(old, seq![op]) =~= op_output(old, 0, op));
}

/// An update that copies the whole cache leaves its lines unchanged.
pub proof fn law_copy_all_keeps_lines(old: Seq<Option<Line>>, op: UpdateOp)
    requires
        op.op == OpType::Copy,
        op.n == old.len(),
    ensures
        apply_ops(old, seq![op]) == old,
{
    lemma_apply_single(old, op);
    assert(apply_ops(old, seq![op]) =~= old);
}

/// Skipping `k` lines and then copying `m` keeps the window of the old
/// cache that starts at line `k`.
pub proof fn law_skip_then_copy_is_window(old: Seq<Option<Line>>, skip: UpdateOp, copy: UpdateOp)
    requires
        skip.op == OpType::Skip,
        copy.op == OpType::Copy,
        skip.n + copy.n <= old.len(),
    ensures
        apply_ops(old, seq![skip, copy]) == old.subrange(skip.n as int, skip.n + copy.n),
{
    let ops = seq![skip, copy];
    assert(ops.drop_last() =~= seq![skip]);
    assert(ops.last() == copy);
    lemma_apply_single(old, skip);
    assert(seq![skip].drop_last() =~= Seq::<UpdateOp>::empty());
    assert(ops_consume(Seq::<UpdateOp>::empty()) == 0);
    assert(ops_consume(seq![skip]) == skip.n);
    assert(apply_ops(old, ops) =~= old.subrange(skip.n as int, skip.n + copy.n));
}

/// Invalidating `n` lines yields `n` invalid lines, whatever the old cache held.
pub proof fn law_invalidate_yields_invalid(old: Seq<Option<Line>>, op: UpdateOp)
    requires
        op.op == OpType::Invalidate,
    ensures
        apply_ops(old, seq![op]).len() == op.n,
        forall|i: int| 0 <= i < op.n ==> apply_ops(old, seq![op])[i] is None,
{
    lemma_apply_single(old, op);
}

/// The lines produced by an operation never depend on more of the old
/// cache than it consumes: each output line is either new or read at the
/// operation's read positions.
pub proof fn law_apply_ops_appends(old: Seq<Option<Line>>, ops: Seq<UpdateOp>, op: UpdateOp)
    ensures
        apply_ops(old, ops.push(op)) == apply_ops(old, ops) + op_output(old, ops_consume(ops) as int, op),
{
    assert(ops.push(op).drop_last() =~= ops);
}
} // verus!

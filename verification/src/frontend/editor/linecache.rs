//! Line cache of an editing view, fed with the updates the core sends as
//! JSON. Offsets arrive in UTF-8 bytes and are kept in UTF-16 code units.

use vstd::prelude::*;

use core::ops::Range;

use crate::rpc::{Annotation, AnnotationRange, AnnotationType};
use crate::utf16::{
    count_utf16_in, lemma_utf16_len_bound, lemma_utf16_len_concat, str_eq, utf16_len_of_bytes,
};
pub use crate::utf16::count_utf16;
use vstd::string::StringSliceAdditionalSpecFns;
use vstd::utf8::{encode_utf8, is_char_boundary};

verus! {

/// A run of a line styled with one style, in UTF-16 code units.
#[derive(Debug)]
pub struct StyleSpan {
    pub style_id: usize,
    pub range: Range<usize>,
}

impl Clone for StyleSpan {
    fn clone(&self) -> (res: Self)
        ensures
            res == *self,
    {
        StyleSpan { style_id: self.style_id, range: Range { start: self.range.start, end: self.range.end } }
    }
}

/// A cached line: its text, cursor positions and style runs in UTF-16
/// code units, and its line number when the core sent one.
#[derive(Debug)]
pub struct Line {
    text: String,
    cursor: Vec<usize>,
    styles: Vec<StyleSpan>,
    line_num: Option<u64>,
}

/// A selected span of one cached line, in byte columns.
pub struct Selection {
    pub line_num: usize,
    pub start_col: usize,
    pub end_col: usize,
}

/// A style run as the core encodes it: the start relative to the end of the
/// previous run, the length, and the style, offsets in UTF-8 bytes.
#[derive(Debug, Clone, Copy)]
pub struct StyleTriple {
    pub start: i64,
    pub len: i64,
    pub style_id: u64,
}

/// A line as the core encodes it; each field is present only when the
/// core sent it.
#[derive(Debug)]
pub struct JsonLine {
    pub text: Option<String>,
    pub ln: Option<u64>,
    pub cursor: Option<Vec<u64>>,
    pub styles: Option<Vec<StyleTriple>>,
}

/// One operation of an update: its name (`ins`, `copy`, `skip`,
/// `invalidate` or `update`), its count and its lines.
#[derive(Debug)]
pub struct JsonOp {
    pub op: Option<String>,
    pub n: Option<u64>,
    pub lines: Option<Vec<JsonLine>>,
}

/// An update as the core sends it.
#[derive(Debug)]
pub struct JsonUpdate {
    pub ops: Vec<JsonOp>,
    pub annotations: Vec<Annotation>,
}

pub struct LineCache {
    lines: Vec<Option<Line>>,
    annotations: Vec<Annotation>,
    selections: Vec<Selection>,
}

/// What a cached line holds.
pub struct LineView {
    pub text: Seq<char>,
    pub cursor: Seq<usize>,
    pub styles: Seq<StyleSpan>,
    pub line_num: Option<u64>,
}

impl View for Line {
    type V = LineView;

    closed spec fn view(&self) -> LineView {
        LineView {
            text: self.text@,
            cursor: self.cursor@,
            styles: self.styles@,
            line_num: self.line_num,
        }
    }
}

/* Decoding one line */

/// The UTF-8 bytes of the text a line carries, empty when it carries none.
pub open spec fn json_bytes(j: JsonLine) -> Seq<u8> {
    match j.text {
        Some(t) => encode_utf8(t@),
        None => Seq::empty(),
    }
}

/// A byte offset of the line converted to UTF-16 code units; offsets of a
/// line without text are kept as they are.
pub open spec fn json_offset_utf16(j: JsonLine, offset: u64) -> usize {
    match j.text {
        Some(t) => utf16_len_of_bytes(encode_utf8(t@).take(offset as int)) as usize,
        None => offset as usize,
    }
}

/// The byte offset at which run `k` of the line ends, each run starting
/// where the previous one ended.
pub open spec fn style_end(styles: Seq<StyleTriple>, k: int) -> int
    decreases k,
{
    if k <= 0 {
        0
    } else {
        style_end(styles, k - 1) + styles[k - 1].start + styles[k - 1].len
    }
}

/// The byte offset at which run `k` of the line starts.
pub open spec fn style_start(styles: Seq<StyleTriple>, k: int) -> int {
    style_end(styles, k) + styles[k].start
}

/// The style span decoded from run `k` of a line.
pub open spec fn json_style_span(j: JsonLine, styles: Seq<StyleTriple>, k: int) -> StyleSpan {
    let start = style_start(styles, k);
    let end = style_end(styles, k + 1);
    let start_utf16: usize = match j.text {
        Some(t) => utf16_len_of_bytes(encode_utf8(t@).take(start)) as usize,
        None => start as i64 as usize,
    };
    let width: usize = match j.text {
        Some(t) => utf16_len_of_bytes(encode_utf8(t@).subrange(start, end)) as usize,
        None => end as i64 as usize,
    };
    StyleSpan { style_id: styles[k].style_id as usize, range: Range { start: start_utf16, end: (start_utf16 + width) as usize } }
}

/// The line an encoded line decodes to.
pub open spec fn json_line_view(j: JsonLine) -> LineView {
    LineView {
        text: match j.text {
            Some(t) => t@,
            None => Seq::empty(),
        },
        cursor: match j.cursor {
            Some(c) => c@.map_values(|o: u64| json_offset_utf16(j, o)),
            None => Seq::empty(),
        },
        styles: match j.styles {
            Some(st) => Seq::new(st@.len(), |k: int| json_style_span(j, st@, k)),
            None => Seq::empty(),
        },
        line_num: j.ln,
    }
}

/// Run `k` of a line can be decoded: its offsets fit in 64 bits, lie on
/// character boundaries of the text, and sum without overflow when the
/// line carries no text.
pub open spec fn json_style_ok(j: JsonLine, styles: Seq<StyleTriple>, k: int) -> bool {
    let start = style_start(styles, k);
    let end = style_end(styles, k + 1);
    &&& i64::MIN <= start <= i64::MAX
    &&& i64::MIN <= end <= i64::MAX
    &&& match j.text {
        Some(t) => {
            &&& 0 <= start <= end <= encode_utf8(t@).len()
            &&& is_char_boundary(encode_utf8(t@), start)
            &&& is_char_boundary(encode_utf8(t@), end)
        },
        None => (start as i64 as usize) + (end as i64 as usize) <= usize::MAX,
    }
}

/// A line can be decoded without failing.
pub open spec fn json_line_ok(j: JsonLine) -> bool {
    &&& json_bytes(j).len() <= isize::MAX
    &&& match j.cursor {
        Some(c) => forall|i: int|
            0 <= i < c@.len() ==> (j.text is Some ==> #[trigger] c@[i] <= json_bytes(j).len()
                && is_char_boundary(json_bytes(j), c@[i] as int)),
        None => true,
    }
    &&& match j.styles {
        Some(st) => forall|k: int| 0 <= k < st@.len() ==> #[trigger] json_style_ok(j, st@, k),
        None => true,
    }
}

proof fn lemma_style_end_step(styles: Seq<StyleTriple>, k: int)
    requires
        k >= 0,
    ensures
        style_end(styles, k + 1) == style_end(styles, k) + styles[k].start + styles[k].len,
{
}

impl Line {
    /// Decodes a line the core sent; byte offsets of a line with text are
    /// converted to UTF-16 code units.
    pub fn from_json(v: &JsonLine) -> (line: Line)
        requires
            json_line_ok(*v),
        ensures
            line@ == json_line_view(*v),
    {
        let text: Option<&str> = match &v.text {
            Some(t) => Some(t.as_str()),
            None => None,
        };
        let line_num = v.ln;
        let mut cursor: Vec<usize> = Vec::new();
        if let Some(arr) = &v.cursor {
            let mut i: usize = 0;
            while i < arr.len()
                invariant
                    v.cursor == Some(*arr),
                    json_line_ok(*v),
                    match text {
                        Some(t) => v.text is Some && t@ == v.text->0@,
                        None => v.text is None,
                    },
                    i <= arr@.len(),
                    cursor@ == arr@.take(i as int).map_values(|o: u64| json_offset_utf16(*v, o)),
                decreases arr@.len() - i,
            {
                let offset_utf8 = arr[i] as usize;
                if let Some(text) = text {
                    let bytes = text.as_bytes();
                    let ghost c = v.cursor->0;
                    assert(c == *arr);
                    assert(c@[i as int] <= json_bytes(*v).len());
                    let n = count_utf16_in(bytes, 0, offset_utf8);
                    assert(bytes@.subrange(0, offset_utf8 as int) =~= bytes@.take(offset_utf8 as int));
                    cursor.push(n);
                } else {
                    cursor.push(offset_utf8);
                }
                i += 1;
                assert(cursor@ =~= arr@.take(i as int).map_values(|o: u64| json_offset_utf16(*v, o)));
            }
            assert(arr@.take(i as int) =~= arr@);
        }
        let mut styles: Vec<StyleSpan> = Vec::new();
        if let Some(arr) = &v.styles {
            let mut ix: i64 = 0;
            let mut k: usize = 0;
            while k < arr.len()
                invariant
                    v.styles == Some(*arr),
                    json_line_ok(*v),
                    match text {
                        Some(t) => v.text is Some && t@ == v.text->0@,
                        None => v.text is None,
                    },
                    k <= arr@.len(),
                    ix == style_end(arr@, k as int),
                    styles@ == Seq::new(k as nat, |t: int| json_style_span(*v, arr@, t)),
                decreases arr@.len() - k,
            {
                let ghost st = v.styles->0;
                assert(st == *arr);
                assert(json_style_ok(*v, st@, k as int));
                proof {
                    lemma_style_end_step(arr@, k as int);
                }
                let triple = arr[k];
                let start = ix + triple.start;
                let end = start + triple.len;
                let start_utf16: usize = if let Some(text) = text {
                    let bytes = text.as_bytes();
                    let n = count_utf16_in(bytes, 0, start as usize);
                    assert(bytes@.subrange(0, start as int) =~= bytes@.take(start as int));
                    n
                } else {
                    start as usize
                };
                let width: usize = if let Some(text) = text {
                    let bytes = text.as_bytes();
                    let n = count_utf16_in(bytes, start as usize, end as usize);
                    proof {
                        lemma_utf16_len_concat(
                            bytes@.subrange(0, start as int),
                            bytes@.subrange(start as int, end as int),
                        );
                        assert(bytes@.subrange(0, start as int) + bytes@.subrange(start as int, end as int)
                            =~= bytes@.subrange(0, end as int));
                        lemma_utf16_len_bound(bytes@.subrange(0, end as int));
                    }
                    n
                } else {
                    end as usize
                };
                let end_utf16 = start_utf16 + width;
                let style_id = triple.style_id as usize;
                let style_span = StyleSpan { style_id, range: Range { start: start_utf16, end: end_utf16 } };
                styles.push(style_span);
                ix = end;
                k += 1;
                assert(styles@ =~= Seq::new(k as nat, |t: int| json_style_span(*v, arr@, t)));
            }
        }
        let text_owned = match text {
            Some(t) => String::from_str(t),
            None => String::new(),
        };
        Line { text: text_owned, line_num, cursor, styles }
    }

    pub fn text(&self) -> (t: &str)
        ensures
            t@ == self@.text,
    {
        self.text.as_str()
    }

    pub fn cursor(&self) -> (c: &[usize])
        ensures
            c@ == self@.cursor,
    {
        self.cursor.as_slice()
    }

    pub fn styles(&self) -> (s: &[StyleSpan])
        ensures
            s@ == self@.styles,
    {
        self.styles.as_slice()
    }

    pub fn line_num(&self) -> (n: Option<u64>)
        ensures
            n == self@.line_num,
    {
        self.line_num
    }
}


/* Applying updates */

/// The kinds of operation an update holds.
pub enum JsonOpKind {
    Insert,
    Copy,
    Skip,
    Invalidate,
    Update,
    Unknown,
}

/// The kind an operation's name denotes.
pub open spec fn json_op_kind(op: JsonOp) -> JsonOpKind {
    match op.op {
        Some(name) => if name@ == "ins"@ {
            JsonOpKind::Insert
        } else if name@ == "copy"@ {
            JsonOpKind::Copy
        } else if name@ == "skip"@ {
            JsonOpKind::Skip
        } else if name@ == "invalidate"@ {
            JsonOpKind::Invalidate
        } else if name@ == "update"@ {
            JsonOpKind::Update
        } else {
            JsonOpKind::Unknown
        },
        None => JsonOpKind::Unknown,
    }
}

/// The encoded lines an operation carries.
pub open spec fn json_op_lines(op: JsonOp) -> Seq<JsonLine> {
    match op.lines {
        Some(ls) => ls@,
        None => Seq::empty(),
    }
}

/// The count an operation carries.
pub open spec fn json_op_count(op: JsonOp) -> nat {
    match op.n {
        Some(n) => n as nat,
        None => 0,
    }
}

/// An operation can be applied without failing: operations that carry
/// lines have decodable lines, operations that count lines have a count.
pub open spec fn json_op_ok(op: JsonOp) -> bool {
    match json_op_kind(op) {
        JsonOpKind::Insert | JsonOpKind::Update => {
            &&& op.lines is Some
            &&& forall|i: int| 0 <= i < json_op_lines(op).len() ==> #[trigger] json_line_ok(json_op_lines(op)[i])
        },
        JsonOpKind::Copy | JsonOpKind::Skip | JsonOpKind::Invalidate => op.n is Some,
        JsonOpKind::Unknown => true,
    }
}

/// The cached lines of the old cache as read from position `pos`.
pub open spec fn next_old_view(old: Seq<Option<LineView>>, pos: int) -> Option<LineView> {
    if 0 <= pos < old.len() {
        old[pos]
    } else {
        None
    }
}

/// How many lines of the old cache an operation consumes.
pub open spec fn json_op_consumes(op: JsonOp) -> nat {
    match json_op_kind(op) {
        JsonOpKind::Copy | JsonOpKind::Skip => json_op_count(op),
        JsonOpKind::Update => json_op_lines(op).len(),
        _ => 0,
    }
}

/// How many lines of the old cache a sequence of operations consumes.
pub open spec fn json_ops_consume(ops: Seq<JsonOp>) -> nat
    decreases ops.len(),
{
    if ops.len() == 0 {
        0
    } else {
        json_ops_consume(ops.drop_last()) + json_op_consumes(ops.last())
    }
}

/// A cached line whose cursors are replaced by those of an encoded line.
pub open spec fn with_cursor(l: LineView, j: JsonLine) -> LineView {
    LineView { cursor: json_line_view(j).cursor, ..l }
}

/// The lines an operation appends to the new cache when the old cache is
/// read from position `pos`.
pub open spec fn json_op_output(old: Seq<Option<LineView>>, pos: int, op: JsonOp) -> Seq<Option<LineView>> {
    match json_op_kind(op) {
        JsonOpKind::Insert => json_op_lines(op).map_values(|j: JsonLine| Some(json_line_view(j))),
        JsonOpKind::Copy => Seq::new(json_op_count(op), |i: int| next_old_view(old, pos + i)),
        JsonOpKind::Skip => Seq::empty(),
        JsonOpKind::Invalidate => Seq::new(json_op_count(op), |i: int| None),
        JsonOpKind::Update => Seq::new(
            json_op_lines(op).len(),
            |i: int|
                match next_old_view(old, pos + i) {
                    Some(l) => Some(with_cursor(l, json_op_lines(op)[i])),
                    None => None,
                },
        ),
        JsonOpKind::Unknown => Seq::empty(),
    }
}

/// The cache built from `old` by a sequence of operations.
pub open spec fn json_apply_ops(old: Seq<Option<LineView>>, ops: Seq<JsonOp>) -> Seq<Option<LineView>>
    decreases ops.len(),
{
    if ops.len() == 0 {
        Seq::empty()
    } else {
        json_apply_ops(old, ops.drop_last()) + json_op_output(
            old,
            json_ops_consume(ops.drop_last()) as int,
            ops.last(),
        )
    }
}

/// The view of a possibly invalid cached line.
pub open spec fn opt_line_view(l: Option<Line>) -> Option<LineView> {
    match l {
        Some(x) => Some(x@),
        None => None,
    }
}

/* Selections */

/// The text of cached line `n`, when the line is valid.
pub open spec fn line_text_at(lines: Seq<Option<LineView>>, n: int) -> Option<Seq<char>> {
    if 0 <= n < lines.len() && lines[n] is Some {
        Some(lines[n]->0.text)
    } else {
        None
    }
}

/// The columns of a range, smaller first.
pub open spec fn ordered_cols(r: AnnotationRange) -> (usize, usize) {
    if r.start_col > r.end_col {
        (r.end_col, r.start_col)
    } else {
        (r.start_col, r.end_col)
    }
}

/// A column clamped to a line of `len` bytes.
pub open spec fn clamp_col(c: usize, len: nat) -> usize {
    if c >= len {
        len as usize
    } else {
        c
    }
}

/// The clamped byte columns a range selects on a line of `len` bytes.
pub open spec fn selected_cols(r: AnnotationRange, len: nat) -> (usize, usize) {
    (clamp_col(ordered_cols(r).0, len), clamp_col(ordered_cols(r).1, len))
}

/// The number of lines a range spans.
pub open spec fn range_line_count(r: AnnotationRange) -> nat {
    if r.end_line + 1 > r.start_line {
        (r.end_line + 1 - r.start_line) as nat
    } else {
        0
    }
}

/// A selection range can be mapped onto line `n`: slicing its text at the
/// clamped columns does not split a character.
pub open spec fn selection_fits_line(lines: Seq<Option<LineView>>, r: AnnotationRange, n: int) -> bool {
    match line_text_at(lines, n) {
        Some(t) => {
            let bytes = encode_utf8(t);
            let (s, e) = selected_cols(r, bytes.len());
            &&& bytes.len() <= isize::MAX
            &&& is_char_boundary(bytes, s as int)
            &&& is_char_boundary(bytes, e as int)
        },
        None => true,
    }
}

/// A selection range can be mapped onto every line it spans.
pub open spec fn selection_range_fits(lines: Seq<Option<LineView>>, r: AnnotationRange) -> bool {
    &&& r.end_line < usize::MAX
    &&& forall|n: int|
        r.start_line <= n <= r.end_line ==> #[trigger] selection_fits_line(lines, r, n)
}

/// Every selection annotation can be mapped onto the cache.
pub open spec fn selections_fit(lines: Seq<Option<LineView>>, annos: Seq<Annotation>) -> bool {
    forall|a: int, j: int|
        0 <= a < annos.len() && annos[a].annotation_type == AnnotationType::Selection && 0 <= j
            < annos[a].ranges@.len() ==> #[trigger] selection_range_fits(
            lines,
            annos[a].ranges@[j],
        )
}

/// The selection recorded for line `n` under range `r`, as
/// `(line, start column, end column)`.
pub open spec fn selection_on_line(lines: Seq<Option<LineView>>, r: AnnotationRange, n: int) -> Seq<(usize, usize, usize)> {
    match line_text_at(lines, n) {
        Some(t) => {
            let (s, e) = selected_cols(r, encode_utf8(t).len());
            seq![(n as usize, s, e)]
        },
        None => Seq::empty(),
    }
}

/// Selections recorded for the first `k` lines a range spans.
pub open spec fn range_selections(lines: Seq<Option<LineView>>, r: AnnotationRange, k: nat) -> Seq<(usize, usize, usize)>
    decreases k,
{
    if k == 0 {
        Seq::empty()
    } else {
        range_selections(lines, r, (k - 1) as nat) + selection_on_line(
            lines,
            r,
            r.start_line + k - 1,
        )
    }
}

/// Selections recorded for a sequence of ranges.
pub open spec fn ranges_selections(lines: Seq<Option<LineView>>, ranges: Seq<AnnotationRange>) -> Seq<(usize, usize, usize)>
    decreases ranges.len(),
{
    if ranges.len() == 0 {
        Seq::empty()
    } else {
        ranges_selections(lines, ranges.drop_last()) + range_selections(
            lines,
            ranges.last(),
            range_line_count(ranges.last()),
        )
    }
}

/// Selections recorded for the selection annotations of an update.
pub open spec fn annotation_selections(lines: Seq<Option<LineView>>, annos: Seq<Annotation>) -> Seq<(usize, usize, usize)>
    decreases annos.len(),
{
    if annos.len() == 0 {
        Seq::empty()
    } else {
        annotation_selections(lines, annos.drop_last()) + if annos.last().annotation_type
            == AnnotationType::Selection {
            ranges_selections(lines, annos.last().ranges@)
        } else {
            Seq::empty()
        }
    }
}

/// The annotations of an update other than selections.
pub open spec fn other_annotations(annos: Seq<Annotation>) -> Seq<Annotation>
    decreases annos.len(),
{
    if annos.len() == 0 {
        Seq::empty()
    } else {
        other_annotations(annos.drop_last()) + if annos.last().annotation_type
            == AnnotationType::Selection {
            Seq::empty()
        } else {
            seq![annos.last()]
        }
    }
}

/// An update can be applied to a cache holding `old` without failing.
pub open spec fn json_update_ok(old: Seq<Option<LineView>>, update: JsonUpdate) -> bool {
    &&& forall|i: int| 0 <= i < update.ops@.len() ==> #[trigger] json_op_ok(update.ops@[i])
    &&& selections_fit(json_apply_ops(old, update.ops@), update.annotations@)
}

/// Hands out the line of the old cache at the read position and advances it.
fn take_old_line(
    old_lines: &mut Vec<Option<Line>>,
    pos: &mut usize,
    Ghost(orig): Ghost<Seq<Option<LineView>>>,
) -> (item: Option<Line>)
    requires
        *old(pos) <= old(old_lines)@.len(),
        old(old_lines)@.len() == orig.len(),
        forall|j: int| *old(pos) <= j < orig.len() ==> opt_line_view(old(old_lines)@[j]) == orig[j],
    ensures
        opt_line_view(item) == next_old_view(orig, *old(pos) as int),
        *final(pos) == if *old(pos) < orig.len() { *old(pos) + 1 } else { *old(pos) as int },
        final(old_lines)@.len() == orig.len(),
        forall|j: int| *final(pos) <= j < orig.len() ==> opt_line_view(final(old_lines)@[j]) == orig[j],
{
    if *pos < old_lines.len() {
        let mut item: Option<Line> = None;
        old_lines.set_and_swap(*pos, &mut item);
        *pos = *pos + 1;
        item
    } else {
        None
    }
}

proof fn lemma_next_old_view_clamped(old: Seq<Option<LineView>>, p: nat)
    ensures
        next_old_view(old, p as int) == next_old_view(old, if p < old.len() { p as int } else { old.len() as int }),
{
}

impl LineCache {
    pub closed spec fn spec_lines(&self) -> Seq<Option<LineView>> {
        self.lines@.map_values(|l: Option<Line>| opt_line_view(l))
    }

    pub closed spec fn spec_selections(&self) -> Seq<(usize, usize, usize)> {
        self.selections@.map_values(|s: Selection| (s.line_num, s.start_col, s.end_col))
    }

    pub closed spec fn spec_annotations(&self) -> Seq<Annotation> {
        self.annotations@
    }

    /// An empty cache.
    pub fn new() -> (cache: LineCache)
        ensures
            cache.spec_lines().len() == 0,
            cache.spec_selections().len() == 0,
            cache.spec_annotations().len() == 0,
    {
        LineCache { lines: Vec::new(), annotations: Vec::new(), selections: Vec::new() }
    }

    fn push_opt_line(&mut self, line: Option<Line>)
        ensures
            final(self).lines@ == old(self).lines@.push(line),
            final(self).spec_lines() == old(self).spec_lines().push(opt_line_view(line)),
            final(self).annotations == old(self).annotations,
            final(self).selections == old(self).selections,
    {
        let ghost v = opt_line_view(line);
        self.lines.push(line);
        assert(self.spec_lines() =~= old(self).spec_lines().push(v));
    }

    /// Rebuilds the cache from the operations of `update`, then records the
    /// selections and the other annotations it carries. Selections and
    /// annotations held before are dropped.
    pub fn apply_update(&mut self, update: JsonUpdate)
        requires
            json_update_ok(old(self).spec_lines(), update),
        ensures
            final(self).spec_lines() == json_apply_ops(old(self).spec_lines(), update.ops@),
            final(self).spec_selections() == annotation_selections(
                final(self).spec_lines(),
                update.annotations@,
            ),
            final(self).spec_annotations() == other_annotations(update.annotations@),
    {
        let ghost old_view = self.spec_lines();
        let ghost all_ops = update.ops@;
        let ghost all_annos = update.annotations@;
        let JsonUpdate { ops, annotations } = update;
        let mut old_lines: Vec<Option<Line>> = Vec::new();
        std::mem::swap(&mut old_lines, &mut self.lines);
        self.annotations = Vec::new();
        self.selections = Vec::new();
        let mut pos: usize = 0;
        let mut i: usize = 0;
        while i < ops.len()
            invariant
                ops@ == all_ops,
                i <= ops@.len(),
                forall|j: int| 0 <= j < all_ops.len() ==> #[trigger] json_op_ok(all_ops[j]),
                old_lines@.len() == old_view.len(),
                pos <= old_view.len(),
                pos == if json_ops_consume(all_ops.take(i as int)) < old_view.len() {
                    json_ops_consume(all_ops.take(i as int)) as int
                } else {
                    old_view.len() as int
                },
                forall|j: int| pos <= j < old_view.len() ==> opt_line_view(old_lines@[j]) == old_view[j],
                self.spec_lines() == json_apply_ops(old_view, all_ops.take(i as int)),
                self.annotations@.len() == 0,
                self.selections@.len() == 0,
            decreases ops@.len() - i,
        {
            let o = &ops[i];
            let ghost base: nat = json_ops_consume(all_ops.take(i as int));
            let ghost before = self.spec_lines();
            proof {
                assert(all_ops.take(i + 1).drop_last() =~= all_ops.take(i as int));
                assert(all_ops.take(i + 1).last() == *o);
                assert(json_op_ok(all_ops[i as int]));
            }
            if let Some(op_type) = &o.op {
                let op_type = op_type.as_str();
                if str_eq(op_type, "ins") {
                    let lines = o.lines.as_ref().unwrap();
                    let mut k: usize = 0;
                    while k < lines.len()
                        invariant
                            o.lines == Some(*lines),
                            json_op_ok(*o),
                            json_op_kind(*o) == JsonOpKind::Insert,
                            k <= lines@.len(),
                            self.spec_lines() == before + lines@.take(k as int).map_values(
                                |j: JsonLine| Some(json_line_view(j)),
                            ),
                            self.annotations@.len() == 0,
                            self.selections@.len() == 0,
                        decreases lines@.len() - k,
                    {
                        assert(json_line_ok(json_op_lines(*o)[k as int]));
                        let line = Line::from_json(&lines[k]);
                        self.push_opt_line(Some(line));
                        k += 1;
                        assert(self.spec_lines() =~= before + lines@.take(k as int).map_values(
                            |j: JsonLine| Some(json_line_view(j)),
                        ));
                    }
                    assert(lines@.take(k as int) =~= lines@);
                } else if str_eq(op_type, "copy") {
                    let n: u64 = o.n.unwrap();
                    let mut k: u64 = 0;
                    while k < n
                        invariant
                            k <= n,
                            old_lines@.len() == old_view.len(),
                            pos <= old_view.len(),
                            pos == if base + k < old_view.len() {
                                (base + k) as int
                            } else {
                                old_view.len() as int
                            },
                            forall|j: int| pos <= j < old_view.len() ==> opt_line_view(old_lines@[j]) == old_view[j],
                            self.spec_lines() == before + Seq::new(k as nat, |t: int| next_old_view(old_view, base + t)),
                            self.annotations@.len() == 0,
                            self.selections@.len() == 0,
                        decreases n - k,
                    {
                        let item = take_old_line(&mut old_lines, &mut pos, Ghost(old_view));
                        proof {
                            lemma_next_old_view_clamped(old_view, (base + k) as nat);
                        }
                        self.push_opt_line(item);
                        k += 1;
                        assert(self.spec_lines() =~= before + Seq::new(k as nat, |t: int| next_old_view(old_view, base + t)));
                    }
                } else if str_eq(op_type, "skip") {
                    let n: u64 = o.n.unwrap();
                    let mut k: u64 = 0;
                    while k < n
                        invariant
                            k <= n,
                            old_lines@.len() == old_view.len(),
                            pos <= old_view.len(),
                            pos == if base + k < old_view.len() {
                                (base + k) as int
                            } else {
                                old_view.len() as int
                            },
                            forall|j: int| pos <= j < old_view.len() ==> opt_line_view(old_lines@[j]) == old_view[j],
                            self.spec_lines() == before,
                            self.annotations@.len() == 0,
                            self.selections@.len() == 0,
                        decreases n - k,
                    {
                        let _ = take_old_line(&mut old_lines, &mut pos, Ghost(old_view));
                        k += 1;
                    }
                    assert(self.spec_lines() =~= before + json_op_output(old_view, base as int, *o));
                } else if str_eq(op_type, "invalidate") {
                    let n: u64 = o.n.unwrap();
                    let mut k: u64 = 0;
                    while k < n
                        invariant
                            k <= n,
                            self.spec_lines() == before + Seq::new(k as nat, |t: int| None::<LineView>),
                            self.annotations@.len() == 0,
                            self.selections@.len() == 0,
                        decreases n - k,
                    {
                        self.push_opt_line(None);
                        k += 1;
                        assert(self.spec_lines() =~= before + Seq::new(k as nat, |t: int| None::<LineView>));
                    }
                } else if str_eq(op_type, "update") {
                    let lines = o.lines.as_ref().unwrap();
                    let mut k: usize = 0;
                    while k < lines.len()
                        invariant
                            o.lines == Some(*lines),
                            json_op_ok(*o),
                            json_op_kind(*o) == JsonOpKind::Update,
                            k <= lines@.len(),
                            old_lines@.len() == old_view.len(),
                            pos <= old_view.len(),
                            pos == if base + k < old_view.len() {
                                (base + k) as int
                            } else {
                                old_view.len() as int
                            },
                            forall|j: int| pos <= j < old_view.len() ==> opt_line_view(old_lines@[j]) == old_view[j],
                            self.spec_lines() == before + Seq::new(
                                k as nat,
                                |t: int|
                                    match next_old_view(old_view, base + t) {
                                        Some(l) => Some(with_cursor(l, lines@[t])),
                                        None => None,
                                    },
                            ),
                            self.annotations@.len() == 0,
                            self.selections@.len() == 0,
                        decreases lines@.len() - k,
                    {
                        assert(json_line_ok(json_op_lines(*o)[k as int]));
                        let line = Line::from_json(&lines[k]);
                        let item = take_old_line(&mut old_lines, &mut pos, Ghost(old_view));
                        proof {
                            lemma_next_old_view_clamped(old_view, (base + k) as nat);
                        }
                        if let Some(new_line) = item {
                            let mut new_line = new_line;
                            new_line.cursor = line.cursor;
                            self.push_opt_line(Some(new_line));
                        } else {
                            self.push_opt_line(None);
                        }
                        k += 1;
                        assert(self.spec_lines() =~= before + Seq::new(
                            k as nat,
                            |t: int|
                                match next_old_view(old_view, base + t) {
                                    Some(l) => Some(with_cursor(l, lines@[t])),
                                    None => None,
                                },
                        ));
                    }
                }
            }
            assert(self.spec_lines() =~= before + json_op_output(old_view, base as int, *o));
            i += 1;
        }
        assert(all_ops.take(i as int) =~= all_ops);
        let ghost lines_view = self.spec_lines();
        let mut annotations = annotations;
        let mut a: usize = 0;
        while a < annotations.len()
            invariant
                a <= annotations@.len(),
                annotations@.len() == all_annos.len(),
                forall|j: int| a <= j < all_annos.len() ==> annotations@[j] == all_annos[j],
                self.spec_lines() == lines_view,
                selections_fit(lines_view, all_annos),
                self.spec_selections() == annotation_selections(lines_view, all_annos.take(a as int)),
                self.annotations@ == other_annotations(all_annos.take(a as int)),
            decreases annotations@.len() - a,
        {
            proof {
                assert(all_annos.take(a + 1).drop_last() =~= all_annos.take(a as int));
            }
            let mut anno = Annotation {
                annotation_type: AnnotationType::Find,
                ranges: Vec::new(),
                payloads: None,
            };
            annotations.set_and_swap(a, &mut anno);
            assert(all_annos.take(a + 1).last() == anno);
            match anno.annotation_type {
                AnnotationType::Selection => {
                    let ghost before = self.spec_selections();
                    let mut r: usize = 0;
                    while r < anno.ranges.len()
                        invariant
                            r <= anno.ranges@.len(),
                            anno == all_annos[a as int],
                            anno.annotation_type == AnnotationType::Selection,
                            0 <= a < all_annos.len(),
                            self.spec_lines() == lines_view,
                            selections_fit(lines_view, all_annos),
                            self.spec_selections() == before + ranges_selections(lines_view, anno.ranges@.take(r as int)),
                            self.annotations@ == other_annotations(all_annos.take(a as int)),
                        decreases anno.ranges@.len() - r,
                    {
                        let range = anno.ranges[r];
                        proof {
                            assert(anno.ranges@.take(r + 1).drop_last() =~= anno.ranges@.take(r as int));
                            assert(anno.ranges@.take(r + 1).last() == range);
                            assert(selection_range_fits(lines_view, anno.ranges@[r as int]));
                        }
                        let ghost sel_before = self.spec_selections();
                        let mut line_num: usize = range.start_line;
                        let end: usize = range.end_line + 1;
                        while line_num < end
                            invariant
                                end == range.end_line + 1,
                                selection_range_fits(lines_view, range),
                                range.start_line <= line_num,
                                line_num <= end || end <= range.start_line,
                                end <= range.start_line ==> line_num == range.start_line,
                                self.spec_lines() == lines_view,
                                self.spec_selections() == sel_before + range_selections(
                                    lines_view,
                                    range,
                                    (line_num - range.start_line) as nat,
                                ),
                                self.annotations@ == other_annotations(all_annos.take(a as int)),
                            decreases end - line_num,
                        {
                            let ghost k: nat = (line_num - range.start_line) as nat;
                            let ghost sel_mid = self.spec_selections();
                            assert(range.start_line <= line_num as int <= range.end_line);
                            assert(selection_fits_line(lines_view, range, line_num as int));
                            if line_num < self.lines.len() {
                                match &self.lines[line_num] {
                                    Some(line) => {
                                        assert(self.spec_lines()[line_num as int] == Some(line@));
                                        let bytes = line.text.as_str().as_bytes();
                                        let len = bytes.len();
                                        let (start_col, end_col) = if range.start_col > range.end_col {
                                            (range.end_col, range.start_col)
                                        } else {
                                            (range.start_col, range.end_col)
                                        };
                                        let start_col = if start_col >= len { len } else { start_col };
                                        let end_col = if end_col >= len { len } else { end_col };
                                        let left_utf16 = count_utf16_in(bytes, 0, start_col);
                                        let width_utf16 = count_utf16_in(bytes, start_col, end_col);
                                        proof {
                                            lemma_utf16_len_concat(
                                                bytes@.subrange(0, start_col as int),
                                                bytes@.subrange(start_col as int, end_col as int),
                                            );
                                            assert(bytes@.subrange(0, start_col as int) + bytes@.subrange(
                                                start_col as int,
                                                end_col as int,
                                            ) =~= bytes@.subrange(0, end_col as int));
                                            lemma_utf16_len_bound(bytes@.subrange(0, end_col as int));
                                        }
                                        let _range_start_utf16 = left_utf16;
                                        let _range_end_utf16 = left_utf16 + width_utf16;
                                        self.selections.push(Selection { line_num, start_col, end_col });
                                    },
                                    None => {},
                                }
                            }
                            line_num += 1;
                            assert(self.spec_selections() =~= sel_mid + selection_on_line(
                                lines_view,
                                range,
                                range.start_line + k,
                            ));
                        }
                        proof {
                            assert(range_line_count(range) == (line_num - range.start_line) as nat);
                        }
                        r += 1;
                        assert(self.spec_selections() =~= before + ranges_selections(
                            lines_view,
                            anno.ranges@.take(r as int),
                        ));
                    }
                    assert(anno.ranges@.take(r as int) =~= anno.ranges@);
                    assert(self.spec_selections() =~= annotation_selections(lines_view, all_annos.take(a + 1)));
                    assert(other_annotations(all_annos.take(a + 1)) =~= other_annotations(
                        all_annos.take(a as int),
                    ));
                },
                _ => {
                    self.annotations.push(anno);
                    assert(self.annotations@ =~= other_annotations(all_annos.take(a + 1)));
                    assert(self.spec_selections() =~= annotation_selections(lines_view, all_annos.take(a + 1)));
                },
            }
            a += 1;
        }
        assert(all_annos.take(a as int) =~= all_annos);
    }

    /// The number of lines held.
    pub fn height(&self) -> (h: usize)
        ensures
            h == self.spec_lines().len(),
    {
        self.lines.len()
    }

    /// The line at `ix`, if it is held and valid.
    pub fn get_line(&self, ix: usize) -> (line: Option<&Line>)
        ensures
            match line {
                Some(l) => Some(l@),
                None => None::<LineView>,
            } == (if ix < self.spec_lines().len() {
                self.spec_lines()[ix as int]
            } else {
                None
            }),
    {
        if ix < self.lines.len() {
            self.lines[ix].as_ref()
        } else {
            None
        }
    }

    /// The selections recorded on line `line_num`, in the order recorded.
    pub fn get_selections(&self, line_num: usize) -> (sels: Vec<&Selection>)
        ensures
            sels@.map_values(|s: &Selection| (s.line_num, s.start_col, s.end_col))
                == self.spec_selections().filter(|s: (usize, usize, usize)| s.0 == line_num),
    {
        let mut sels: Vec<&Selection> = Vec::new();
        let mut i: usize = 0;
        while i < self.selections.len()
            invariant
                i <= self.selections@.len(),
                sels@.map_values(|s: &Selection| (s.line_num, s.start_col, s.end_col))
                    == self.spec_selections().take(i as int).filter(
                    |s: (usize, usize, usize)| s.0 == line_num,
                ),
            decreases self.selections@.len() - i,
        {
            proof {
                reveal_with_fuel(Seq::filter, 1);
                assert(self.spec_selections().take(i + 1).drop_last() =~= self.spec_selections().take(
                    i as int,
                ));
            }
            if self.selections[i].line_num == line_num {
                sels.push(&self.selections[i]);
            }
            i += 1;
            assert(sels@.map_values(|s: &Selection| (s.line_num, s.start_col, s.end_col))
                =~= self.spec_selections().take(i as int).filter(
                |s: (usize, usize, usize)| s.0 == line_num,
            ));
        }
        assert(self.spec_selections().take(i as int) =~= self.spec_selections());
        sels
    }

    /// Drops every line, selection and annotation.
    pub fn clear(&mut self)
        ensures
            final(self).spec_lines().len() == 0,
            final(self).spec_selections().len() == 0,
            final(self).spec_annotations().len() == 0,
    {
        self.selections.clear();
        self.lines.clear();
        self.annotations.clear();
    }
}
proof fn lemma_json_apply_single(old: Seq<Option<LineView>>, op: JsonOp)
    ensures
        json_apply_ops(old, seq![op]) == json_op_output(old, 0, op),
        json_ops_consume(seq![op]) == json_op_consumes(op),
{
    let ops = seq![op];
    assert(ops.drop_last() =~= Seq::<JsonOp>::empty());
    assert(json_apply_ops(old, Seq::<JsonOp>::empty()) == Seq::<Option<LineView>>::empty());
    assert(json_ops_consume(Seq::<JsonOp>::empty()) == 0);
    assert(json_apply_ops(old, ops) =~= json_op_output(old, 0, op));
}

/// Copying as many lines as the old cache holds keeps the cache as it was.
pub proof fn law_json_copy_all_keeps_lines(old: Seq<Option<LineView>>, op: JsonOp)
    requires
        json_op_kind(op) == JsonOpKind::Copy,
        json_op_count(op) == old.len(),
    ensures
        json_apply_ops(old, seq![op]) == old,
{
    lemma_json_apply_single(old, op);
    assert(json_apply_ops(old, seq![op]) =~= old);
}

/// An update keeps the text, styles and line numbers of the cached lines
/// it covers and takes the cursors it carries; lines that were invalid
/// stay invalid.
pub proof fn law_json_update_moves_cursors(old: Seq<Option<LineView>>, op: JsonOp)
    requires
        json_op_kind(op) == JsonOpKind::Update,
        json_op_lines(op).len() <= old.len(),
    ensures
        json_apply_ops(old, seq![op]).len() == json_op_lines(op).len(),
        forall|i: int|
            0 <= i < json_op_lines(op).len() ==> #[trigger] json_apply_ops(old, seq![op])[i] == match old[i] {
                Some(l) => Some(LineView { cursor: json_line_view(json_op_lines(op)[i]).cursor, ..l }),
                None => None,
            },
{
    lemma_json_apply_single(old, op);
}

/// Skipping `k` lines and then copying `m` keeps the window of the old
/// cache that starts at line `k`.
pub proof fn law_json_skip_then_copy_is_window(old: Seq<Option<LineView>>, skip: JsonOp, copy: JsonOp)
    requires
        json_op_kind(skip) == JsonOpKind::Skip,
        json_op_kind(copy) == JsonOpKind::Copy,
        json_op_count(skip) + json_op_count(copy) <= old.len(),
    ensures
        json_apply_ops(old, seq![skip, copy]) == old.subrange(
            json_op_count(skip) as int,
            (json_op_count(skip) + json_op_count(copy)) as int,
        ),
{
    let ops = seq![skip, copy];
    assert(ops.drop_last() =~= seq![skip]);
    lemma_json_apply_single(old, skip);
    assert(json_apply_ops(old, seq![skip]) =~= Seq::<Option<LineView>>::empty());
    assert(json_apply_ops(old, ops) =~= old.subrange(
        json_op_count(skip) as int,
        (json_op_count(skip) + json_op_count(copy)) as int,
    ));
}

} // verus!

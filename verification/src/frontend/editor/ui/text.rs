//! The runs of text a cached line is drawn as.

use vstd::prelude::*;

use std::collections::HashMap;
use vstd::string::StringSliceAdditionalSpecFns;
use vstd::utf8::{encode_utf8, is_char_boundary, is_continuation_byte, valid_utf8};

use crate::frontend::editor::linecache::{Line, StyleSpan};
use crate::rpc::theme::{ColourRgba32, Style};

verus! {

broadcast use vstd::std_specs::hash::group_hash_axioms;

/// A run of text in one colour; no colour means the default one.
#[derive(Debug, PartialEq, Eq)]
pub struct TextRun {
    pub content: String,
    pub fg: Option<ColourRgba32>,
}

/// The length of the bytes without their trailing line breaks.
pub open spec fn trimmed_len(bytes: Seq<u8>) -> nat
    decreases bytes.len(),
{
    if bytes.len() > 0 && (bytes.last() == 10u8 || bytes.last() == 13u8) {
        trimmed_len(bytes.drop_last())
    } else {
        bytes.len()
    }
}

/// Where a span ends in a text of `len` bytes.
pub open spec fn span_end(s: StyleSpan, len: nat) -> int {
    if s.range.end > len { len as int } else { s.range.end as int }
}

/// Every span that is drawn starts and ends on a character boundary.
pub open spec fn spans_fit(bytes: Seq<u8>, spans: Seq<StyleSpan>) -> bool {
    let len = trimmed_len(bytes);
    forall|i: int|
        0 <= i < spans.len() && spans[i].range.start <= span_end(spans[i], len) ==> {
            &&& is_char_boundary(bytes.take(len as int), #[trigger] spans[i].range.start as int)
            &&& is_char_boundary(bytes.take(len as int), span_end(spans[i], len))
        }
}

/// The runs of the spans, as bytes and colour: each span that is not empty
/// backwards and whose style is known gives the text it covers, in the
/// style's colour when it has one.
pub open spec fn span_runs(bytes: Seq<u8>, spans: Seq<StyleSpan>, styles: Map<usize, Style>) -> Seq<(Seq<u8>, Option<ColourRgba32>)>
    decreases spans.len(),
{
    if spans.len() == 0 {
        Seq::empty()
    } else {
        let before = span_runs(bytes, spans.drop_last(), styles);
        let s = spans.last();
        let len = trimmed_len(bytes);
        let end = span_end(s, len);
        if s.range.start > end || !styles.dom().contains(s.style_id) {
            before
        } else {
            before.push((bytes.subrange(s.range.start as int, end), styles[s.style_id].fg))
        }
    }
}

/// The runs a line is drawn as: its text without trailing line breaks in
/// the default colour when it has no style spans, else the runs of its
/// spans.
pub open spec fn line_runs_spec(bytes: Seq<u8>, spans: Seq<StyleSpan>, styles: Map<usize, Style>) -> Seq<(Seq<u8>, Option<ColourRgba32>)> {
    if spans.len() > 0 {
        span_runs(bytes, spans, styles)
    } else {
        seq![(bytes.take(trimmed_len(bytes) as int), None)]
    }
}

proof fn lemma_trimmed_len_bound(bytes: Seq<u8>)
    ensures
        trimmed_len(bytes) <= bytes.len(),
        forall|i: int| trimmed_len(bytes) <= i < bytes.len() ==> (#[trigger] bytes[i] == 10u8 || bytes[i] == 13u8),
    decreases bytes.len(),
{
    if bytes.len() > 0 && (bytes.last() == 10u8 || bytes.last() == 13u8) {
        lemma_trimmed_len_bound(bytes.drop_last());
        assert forall|i: int| trimmed_len(bytes) <= i < bytes.len() implies (#[trigger] bytes[i] == 10u8 || bytes[i] == 13u8) by {
            if i < bytes.len() - 1 {
                assert(bytes.drop_last()[i] == bytes[i]);
            }
        }
    }
}

proof fn lemma_boundary_prefix(b: Seq<u8>, start: int, end: int)
    requires
        valid_utf8(b),
        0 <= start <= end <= b.len(),
        is_char_boundary(b, start),
        is_char_boundary(b, end),
    ensures
        valid_utf8(b.subrange(0, end)),
        is_char_boundary(b.subrange(0, end), start),
{
    vstd::utf8::valid_utf8_split(b, end);
    let p = b.subrange(0, end);
    if start < end {
        vstd::utf8::is_char_boundary_iff_not_is_continuation_byte(b, start);
        vstd::utf8::is_char_boundary_iff_not_is_continuation_byte(p, start);
        assert(p[start] == b[start]);
    } else {
        vstd::utf8::is_char_boundary_start_end_of_seq(p);
    }
}

/// The runs of text a cached line is drawn as, in the colours of the
/// styles its spans name; a run with no colour takes the default one.
pub fn line_runs(line: &Line, styles: &HashMap<usize, Style>) -> (runs: Vec<TextRun>)
    requires
        spans_fit(encode_utf8(line@.text), line@.styles),
    ensures
        runs@.map_values(|r: TextRun| (encode_utf8(r.content@), r.fg)) == line_runs_spec(
            encode_utf8(line@.text),
            line@.styles,
            styles@,
        ),
{
    let full = line.text();
    let ghost bytes = encode_utf8(line@.text);
    let raw = full.as_bytes();
    let mut len: usize = raw.len();
    proof {
        assert(bytes.take(raw@.len() as int) =~= bytes);
    }
    while len > 0 && (raw[len - 1] == 10u8 || raw[len - 1] == 13u8)
        invariant
            len <= raw@.len(),
            raw@ == bytes,
            trimmed_len(bytes.take(len as int)) == trimmed_len(bytes),
        decreases len,
    {
        proof {
            assert(bytes.take(len as int).drop_last() =~= bytes.take(len - 1));
        }
        len -= 1;
    }
    proof {
        assert(bytes.take(raw@.len() as int) =~= bytes);
        assert(trimmed_len(bytes.take(len as int)) == len);
        lemma_trimmed_len_bound(bytes);
        vstd::utf8::encode_utf8_valid_utf8(line@.text);
        if len < bytes.len() {
            assert(bytes[len as int] == 10u8 || bytes[len as int] == 13u8);
            vstd::utf8::is_char_boundary_iff_is_leading_byte(bytes, len as int);
        } else {
            vstd::utf8::is_char_boundary_start_end_of_seq(bytes);
        }
    }
    let text = full.split_at(len).0;
    proof {
        vstd::utf8::valid_utf8_split(bytes, len as int);
        assert(bytes.subrange(0, len as int) =~= bytes.take(len as int));
    }
    let spans = line.styles();
    let mut runs: Vec<TextRun> = Vec::new();
    if spans.len() > 0 {
        let mut i: usize = 0;
        while i < spans.len()
            invariant
                i <= spans@.len(),
                spans@ == line@.styles,
                text.spec_bytes() == bytes.take(trimmed_len(bytes) as int),
                len == trimmed_len(bytes),
                len <= bytes.len(),
                valid_utf8(bytes.take(len as int)),
                spans_fit(bytes, spans@),
                runs@.map_values(|r: TextRun| (encode_utf8(r.content@), r.fg)) == span_runs(
                    bytes,
                    spans@.take(i as int),
                    styles@,
                ),
            decreases spans.len() - i,
        {
            let span = &spans[i];
            proof {
                assert(spans@.take(i + 1).drop_last() =~= spans@.take(i as int));
            }
            let start = span.range.start;
            let tlen = text.len();
            assert(tlen == len);
            let end = if span.range.end > tlen { tlen } else { span.range.end };
            if start <= end {
                if let Some(style) = styles.get(&span.style_id) {
                    proof {
                        let tb = bytes.take(len as int);
                        assert(spans@[i as int] == *span);
                        assert(spans@[i as int].range.start <= span_end(spans@[i as int], len as nat));
                        assert(is_char_boundary(tb, spans@[i as int].range.start as int));
                        lemma_boundary_prefix(tb, start as int, end as int);
                    }
                    let content = text.split_at(end).0.split_at(start).1;
                    let run = TextRun { content: String::from_str(content), fg: style.fg };
                    let ghost prev = runs@;
                    runs.push(run);
                    proof {
                        assert(content.spec_bytes() =~= bytes.subrange(start as int, end as int));
                        assert(trimmed_len(bytes) == len);
                        assert(runs@.map_values(|r: TextRun| (encode_utf8(r.content@), r.fg)) =~= prev.map_values(
                            |r: TextRun| (encode_utf8(r.content@), r.fg),
                        ).push((bytes.subrange(start as int, end as int), style.fg)));
                    }
                }
            }
            i += 1;
        }
        proof {
            assert(spans@.take(i as int) =~= spans@);
        }
    } else {
        runs.push(TextRun { content: String::from_str(text), fg: None });
        proof {
            assert(runs@.map_values(|r: TextRun| (encode_utf8(r.content@), r.fg)) =~= seq![
                (bytes.take(len as int), None::<ColourRgba32>),
            ]);
        }
    }
    runs
}

} // verus!

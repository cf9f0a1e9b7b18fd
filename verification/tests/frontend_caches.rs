use eddy::annotations::{AnnotationRange, AnnotationSlice, AnnotationType};
use eddy::client::{Command, Line, Message, Payload, Request, Update, UpdateOp, WidthReq};
use eddy::editor::ViewId;
use eddy::frontend::messages::{frontend_step, FrontendAction};
use eddy::rpc::theme::Style;
use eddy::frontend::editor::linecache::{JsonLine, JsonOp, JsonUpdate, Line as CachedLine, LineCache as JsonLineCache, StyleTriple};
use eddy::frontend::linecache::LineCache;
use eddy::rpc::Annotation;

fn line(text: &str) -> Line {
    Line { text: Some(text.to_string()), cursors: vec![], styles: vec![], ln: 0 }
}

#[test]
fn update_ops_build_cache() {
    let mut cache = LineCache::new();
    assert_eq!(cache.height(), 0);
    let update = Update {
        ops: vec![UpdateOp::insert(vec![line("hello"), line("wörld")]), UpdateOp::invalidate(1)],
        pristine: true,
        annotations: vec![AnnotationSlice {
            annotation_type: AnnotationType::Selection,
            ranges: vec![AnnotationRange { start_line: 0, start_col: 3, end_line: 1, end_col: 1 }],
        }],
    };
    cache.apply_update(update);
    assert_eq!(cache.height(), 3);
    assert_eq!(cache.get_line(0).unwrap().text, Some("hello".to_string()));
    assert!(cache.get_line(2).is_none());
    assert!(cache.get_line(7).is_none());
    let sel0 = cache.get_selections(0);
    assert_eq!(sel0.len(), 1);
    assert_eq!((sel0[0].line_num(), sel0[0].start_col(), sel0[0].end_col()), (0, 1, 3));
    let sel1 = cache.get_selections(1);
    assert_eq!((sel1[0].start_col(), sel1[0].end_col()), (1, 3));
    assert_eq!(cache.get_selections(2).len(), 0);

    let next = Update {
        ops: vec![UpdateOp::skip(1), UpdateOp::copy(1, 2), UpdateOp::update(vec![line("x")], None)],
        pristine: true,
        annotations: vec![],
    };
    cache.apply_update(next);
    assert_eq!(cache.height(), 2);
    assert_eq!(cache.get_line(0).unwrap().text, Some("wörld".to_string()));
    assert!(cache.get_line(1).is_none());
    assert_eq!(cache.get_selections(0).len(), 0);
    cache.clear();
    assert_eq!(cache.height(), 0);
}

#[test]
fn update_op_constructors() {
    let i = UpdateOp::invalidate(4);
    assert_eq!((i.n, i.lines.is_none(), i.first_line_number), (4, true, None));
    let c = UpdateOp::copy(2, 9);
    assert_eq!((c.n, c.first_line_number), (2, Some(9)));
    let ins = UpdateOp::insert(vec![line("a"), line("b")]);
    assert_eq!(ins.n, 2);
    let up = UpdateOp::update(vec![line("a")], Some(3));
    assert_eq!((up.n, up.first_line_number), (1, Some(3)));
    let s = UpdateOp::skip(0);
    assert_eq!(s.n, 0);
}

fn jline(text: Option<&str>, ln: Option<u64>, cursor: Option<Vec<u64>>, styles: Option<Vec<StyleTriple>>) -> JsonLine {
    JsonLine { text: text.map(|t| t.to_string()), ln, cursor, styles }
}

#[test]
fn json_line_offsets_become_utf16() {
    let j = jline(
        Some("héllo"),
        Some(3),
        Some(vec![3, 6]),
        Some(vec![StyleTriple { start: 0, len: 3, style_id: 5 }, StyleTriple { start: 1, len: 2, style_id: 7 }]),
    );
    let l = CachedLine::from_json(&j);
    assert_eq!(l.text(), "héllo");
    assert_eq!(l.cursor(), &[2, 5]);
    assert_eq!(l.line_num(), Some(3));
    let styles = l.styles();
    assert_eq!((styles[0].style_id, styles[0].range.clone()), (5, 0..2));
    assert_eq!((styles[1].style_id, styles[1].range.clone()), (7, 3..5));
}

#[test]
fn json_line_without_text_keeps_offsets() {
    let j = jline(None, None, Some(vec![4]), Some(vec![StyleTriple { start: 2, len: 3, style_id: 1 }]));
    let l = CachedLine::from_json(&j);
    assert_eq!(l.text(), "");
    assert_eq!(l.cursor(), &[4]);
    assert_eq!(l.styles()[0].range.clone(), 2..7);
    assert_eq!(l.line_num(), None);
}

fn op(name: &str, n: Option<u64>, lines: Option<Vec<JsonLine>>) -> JsonOp {
    JsonOp { op: Some(name.to_string()), n, lines }
}

#[test]
fn json_updates_build_cache() {
    let mut cache = JsonLineCache::new();
    let update = JsonUpdate {
        ops: vec![op("ins", None, Some(vec![jline(Some("ab"), Some(1), None, None), jline(Some("cd"), Some(2), None, None)]))],
        annotations: vec![Annotation {
            annotation_type: AnnotationType::Selection,
            ranges: vec![AnnotationRange { start_line: 1, start_col: 5, end_line: 1, end_col: 1 }],
            payloads: None,
        }],
    };
    cache.apply_update(update);
    assert_eq!(cache.height(), 2);
    assert_eq!(cache.get_line(1).unwrap().text(), "cd");
    let sels = cache.get_selections(1);
    assert_eq!((sels[0].line_num, sels[0].start_col, sels[0].end_col), (1, 1, 2));

    let next = JsonUpdate {
        ops: vec![
            op("update", None, Some(vec![jline(None, None, Some(vec![1]), None)])),
            op("copy", Some(1), None),
            op("bogus", Some(3), None),
            op("invalidate", Some(2), None),
        ],
        annotations: vec![],
    };
    cache.apply_update(next);
    assert_eq!(cache.height(), 4);
    assert_eq!(cache.get_line(0).unwrap().text(), "ab");
    assert_eq!(cache.get_line(0).unwrap().cursor(), &[1]);
    assert_eq!(cache.get_line(1).unwrap().text(), "cd");
    assert!(cache.get_line(2).is_none());
    assert_eq!(cache.get_selections(1).len(), 0);
    cache.clear();
    assert_eq!(cache.height(), 0);
}

#[test]
fn frontend_step_routes_messages() {
    let mut cache = LineCache::new();
    let update = Update { ops: vec![UpdateOp::insert(vec![line("a"), line("b")])], pristine: true, annotations: vec![] };
    let a = frontend_step(&mut cache, ViewId(1), Message { view_id: Some(ViewId(1)), payload: Payload::BufferUpdate(update) });
    assert_eq!(a, FrontendAction::Refresh);
    assert_eq!(cache.height(), 2);

    let dropped = Update { ops: vec![UpdateOp::invalidate(5)], pristine: true, annotations: vec![] };
    let a = frontend_step(&mut cache, ViewId(1), Message { view_id: None, payload: Payload::BufferUpdate(dropped) });
    assert_eq!(a, FrontendAction::Ignored);
    assert_eq!(cache.height(), 2);

    let scroll = Message { view_id: Some(ViewId(1)), payload: Payload::Command(Command::Scroll { line: 7, col: 2 }) };
    assert_eq!(frontend_step(&mut cache, ViewId(1), scroll), FrontendAction::ScrollTo(7));
    let style = Style { id: 3, fg: None, bg: None, italic: false };
    let define = Message { view_id: None, payload: Payload::Command(Command::DefineStyle { style_id: 3, style }) };
    assert_eq!(frontend_step(&mut cache, ViewId(1), define), FrontendAction::DefineStyle(3));
    let idle = Message { view_id: None, payload: Payload::Command(Command::Idle { token: 1 }) };
    assert_eq!(frontend_step(&mut cache, ViewId(1), idle), FrontendAction::Ignored);
    let items = vec![WidthReq { id: 0, strings: vec!["x".to_string()] }, WidthReq { id: 1, strings: vec![] }];
    let measure = Message { view_id: None, payload: Payload::Request(Request::MeasureText { items }) };
    assert_eq!(frontend_step(&mut cache, ViewId(1), measure), FrontendAction::MeasureText(2));
    assert_eq!(cache.height(), 2);
}

use eddy::selection::{Affinity, SelRegion};
use eddy::line_offset::LogicalLines;
use eddy::text::Text;
use eddy::view::{
    clamp, encode_line_selection, encode_styles, invalidate_selection, invalidate_styles, plan_update,
    PlanSegment, RenderTactic, ShadowSpan, UpdateStep, Viewport, ALL_VALID, CURSOR_VALID, STYLES_VALID,
    TEXT_VALID,
};

#[test]
fn clamp_keeps_values_in_range() {
    assert_eq!(clamp(5, 2, 8), 5);
    assert_eq!(clamp(1, 2, 8), 2);
    assert_eq!(clamp(9, 2, 8), 8);
    assert_eq!(clamp(8, 2, 8), 8);
}

#[test]
fn viewport_follows_reported_scroll() {
    let mut v = Viewport { first_line: 0, height: 0 };
    v.set_scroll(3, 13);
    assert_eq!(v, Viewport { first_line: 3, height: 10 });
    v.set_scroll(-4, 6);
    assert_eq!(v, Viewport { first_line: 0, height: 6 });
    assert_eq!(v.scroll_height(), 6);
}

#[test]
fn viewport_scrolls_to_line() {
    let mut v = Viewport { first_line: 10, height: 5 };
    v.scroll_to_line(12);
    assert_eq!(v.first_line, 10);
    v.scroll_to_line(3);
    assert_eq!(v.first_line, 3);
    v.scroll_to_line(20);
    assert_eq!(v.first_line, 16);
}

#[test]
fn line_cursors_and_selections() {
    let regions = vec![
        SelRegion::caret(12),
        SelRegion::new(8, 15),
        SelRegion::caret(10).with_affinity(Affinity::Upstream),
        SelRegion::caret(20).with_affinity(Affinity::Upstream),
    ];
    let (cursors, selections) = encode_line_selection(&regions, 10, 20, 30);
    assert_eq!(cursors, vec![2, 5, 10]);
    assert_eq!(selections, vec![(0, 5)]);
    let end = vec![SelRegion::caret(30)];
    let (cursors, _) = encode_line_selection(&end, 25, 30, 30);
    assert_eq!(cursors, vec![5]);
}

#[test]
fn styles_are_encoded_relative() {
    let hls = vec![vec![(0, 2)], vec![(3, 4)]];
    let sel = vec![(5, 7)];
    let spans = vec![(7, 9, 12), (10, 10, 3)];
    assert_eq!(encode_styles(&sel, &hls, &spans), vec![0, 2, 1, 1, 1, 2, 1, 2, 0, 0, 2, 12, 1, 0, 3]);
    assert_eq!(encode_styles(&[], &vec![], &[]), Vec::<usize>::new());
}

fn seg(our: usize, their: usize, n: usize, tactic: RenderTactic, validity: u8, logical: usize) -> PlanSegment {
    PlanSegment { our_line_num: our, their_line_num: their, n, tactic, validity, logical_line: logical }
}

#[test]
fn plan_update_per_segment() {
    let segs = vec![
        seg(0, 0, 2, RenderTactic::Discard, 0, 0),
        seg(2, 4, 3, RenderTactic::Preserve, ALL_VALID, 2),
        seg(5, 7, 1, RenderTactic::Render, TEXT_VALID | STYLES_VALID, 0),
        seg(6, 0, 2, RenderTactic::Preserve, TEXT_VALID, 0),
        seg(8, 0, 4, RenderTactic::Render, 0, 0),
    ];
    let (ops, spans) = plan_update(&segs);
    assert_eq!(
        ops,
        vec![
            UpdateStep::Invalidate(2),
            UpdateStep::Skip(4),
            UpdateStep::Copy(3, 3),
            UpdateStep::Update { start: 5, n: 1, first_line_number: None },
            UpdateStep::Invalidate(2),
            UpdateStep::Insert { start: 8, n: 4 },
        ]
    );
    assert_eq!(
        spans,
        vec![
            ShadowSpan { n: 2, start: 0, validity: 0 },
            ShadowSpan { n: 3, start: 2, validity: ALL_VALID },
            ShadowSpan { n: 1, start: 5, validity: TEXT_VALID | STYLES_VALID },
            ShadowSpan { n: 2, start: 0, validity: 0 },
            ShadowSpan { n: 4, start: 8, validity: ALL_VALID },
        ]
    );
    assert_eq!(CURSOR_VALID, 4);
}

#[test]
fn plan_update_numbers_updated_lines() {
    let segs = vec![seg(3, 3, 2, RenderTactic::Render, TEXT_VALID | STYLES_VALID, 4)];
    let (ops, _) = plan_update(&segs);
    assert_eq!(ops, vec![UpdateStep::Skip(3), UpdateStep::Update { start: 3, n: 2, first_line_number: Some(5) }]);
}

#[test]
fn style_invalidation_covers_touched_lines() {
    let text = Text::from_str("ab\ncd\nef\n");
    // bytes 1..4 run from line 0 into line 1
    assert_eq!(invalidate_styles(&LogicalLines, &text, 1, 4), (0, 2));
    // an end at the start of line 2 leaves that line alone
    assert_eq!(invalidate_styles(&LogicalLines, &text, 3, 6), (1, 2));
    assert_eq!(invalidate_styles(&LogicalLines, &text, 0, 0), (0, 0));
}

#[test]
fn selection_invalidation_depends_on_carets() {
    let text = Text::from_str("ab\ncd\nef\n");
    let carets = [SelRegion::caret(1), SelRegion::caret(7)];
    assert_eq!(invalidate_selection(&LogicalLines, &text, &carets), (0, 3, CURSOR_VALID));
    let mixed = [SelRegion::caret(1), SelRegion::new(5, 3)];
    assert_eq!(
        invalidate_selection(&LogicalLines, &text, &mixed),
        (0, 2, CURSOR_VALID | STYLES_VALID)
    );
    assert_eq!(CURSOR_VALID | STYLES_VALID, 6);
}

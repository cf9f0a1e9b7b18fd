use eddy::kinds::{Motion, Quantity};
use eddy::line_offset::{LineOffset, LogicalLines};
use eddy::movement::{line_col_to_offset, offset_to_line_col, region_movement, scroll_height};
use eddy::selection::SelRegion;
use eddy::text::Text;

fn moved(m: Motion, q: Quantity, r: SelRegion, text: &Text, modify: bool) -> SelRegion {
    region_movement(m, q, r, &LogicalLines, 10, text, modify)
}

#[test]
fn scroll_height_keeps_overlap() {
    assert_eq!(scroll_height(10), 8);
    assert_eq!(scroll_height(3), 1);
    assert_eq!(scroll_height(0), 1);
}

#[test]
fn logical_lines_of_text() {
    let text = Text::from_str("hello\nworld\n");
    assert_eq!(LogicalLines.line_of_offset(&text, 0), 0);
    assert_eq!(LogicalLines.line_of_offset(&text, 6), 1);
    assert_eq!(LogicalLines.line_of_offset(&text, 12), 2);
    assert_eq!(LogicalLines.offset_of_line(&text, 1), 6);
    assert_eq!(LogicalLines.offset_of_line(&text, 2), 12);
    assert_eq!(LogicalLines.offset_of_line(&text, 3), 12);
    assert_eq!(offset_to_line_col(&LogicalLines, &text, 8), (1, 2));
    assert_eq!(line_col_to_offset(&LogicalLines, &text, 1, 2), 8);
    assert_eq!(line_col_to_offset(&LogicalLines, &text, 0, 40), 5);
    assert_eq!(line_col_to_offset(&LogicalLines, &text, 2, 3), 12);
}

#[test]
fn character_motions() {
    let text = Text::from_str("hello\nworld\n");
    assert_eq!(moved(Motion::Forward, Quantity::Character, SelRegion::caret(2), &text, false), SelRegion::caret(3));
    assert_eq!(moved(Motion::Backward, Quantity::Character, SelRegion::caret(2), &text, false), SelRegion::caret(1));
    assert_eq!(moved(Motion::Backward, Quantity::Character, SelRegion::caret(0), &text, false), SelRegion::caret(0));
    assert_eq!(moved(Motion::Forward, Quantity::Character, SelRegion::new(2, 4), &text, false), SelRegion::caret(4));
    assert_eq!(moved(Motion::Backward, Quantity::Character, SelRegion::new(2, 4), &text, false), SelRegion::caret(2));
    assert_eq!(moved(Motion::Forward, Quantity::Character, SelRegion::caret(2), &text, true), SelRegion::new(2, 3));
}

#[test]
fn vertical_motions_keep_column() {
    let text = Text::from_str("hello\nworld\n");
    let down = moved(Motion::Below, Quantity::Character, SelRegion::caret(2), &text, false);
    assert_eq!(down, SelRegion::caret(8).with_horiz(Some(2)));
    let up = moved(Motion::Above, Quantity::Character, down, &text, false);
    assert_eq!(up, SelRegion::caret(2).with_horiz(Some(2)));
    let top = moved(Motion::Above, Quantity::Character, SelRegion::caret(2), &text, false);
    assert_eq!(top, SelRegion::caret(0).with_horiz(Some(2)));
    let page = moved(Motion::Below, Quantity::Page, SelRegion::caret(2), &text, false);
    assert_eq!(page, SelRegion::caret(12).with_horiz(Some(2)));
}

#[test]
fn short_line_clamps_column() {
    let text = Text::from_str("hello\nab\nworld");
    let down = moved(Motion::Below, Quantity::Character, SelRegion::caret(4), &text, false);
    assert_eq!(down, SelRegion::caret(8).with_horiz(Some(4)));
    let down2 = moved(Motion::Below, Quantity::Character, down, &text, false);
    assert_eq!(down2, SelRegion::caret(13).with_horiz(Some(4)));
}

#[test]
fn line_motions() {
    let text = Text::from_str("hello\nworld\n");
    assert_eq!(moved(Motion::First, Quantity::Line, SelRegion::caret(8), &text, false), SelRegion::caret(6));
    assert_eq!(moved(Motion::Last, Quantity::Line, SelRegion::caret(8), &text, false), SelRegion::caret(11));
    assert_eq!(moved(Motion::Last, Quantity::Line, SelRegion::caret(8), &text, true), SelRegion::new(8, 11));
}

#[test]
fn word_motions() {
    let text = Text::from_str("hello world");
    assert_eq!(moved(Motion::Forward, Quantity::Word, SelRegion::caret(0), &text, false), SelRegion::caret(5));
    assert_eq!(moved(Motion::Backward, Quantity::Word, SelRegion::caret(8), &text, false), SelRegion::caret(6));
}

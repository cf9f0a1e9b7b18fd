use eddy::actions::Action;
use eddy::event_context::{determine_action_target, selected_line_ranges, ActionTarget};
use eddy::kinds::{Mode, Motion, Quantity};
use eddy::rpc::theme::Colour;
use eddy::selection::SelRegion;
use eddy::text::Text;
use eddy::utf16::count_utf16;

#[test]
fn utf16_counts() {
    assert_eq!(count_utf16(""), 0);
    assert_eq!(count_utf16("abc"), 3);
    assert_eq!(count_utf16("héllo"), 5);
    assert_eq!(count_utf16("😀a"), 3);
    assert_eq!(count_utf16("日本"), 2);
}

#[test]
fn colour_from_packed_value() {
    let c = Colour::from_u32_rgba(0x44332211);
    assert_eq!(c.channels(), [0x11, 0x22, 0x33, 0x44]);
    assert_eq!(Colour::new(1, 2, 3, 4).channels(), [1, 2, 3, 4]);
}

#[test]
fn mode_names() {
    assert_eq!(Mode::NoMode.to_string(), "None");
    assert_eq!(Mode::Visual.to_string(), "Visual");
}

#[test]
fn action_targets() {
    assert_eq!(determine_action_target(&Action::InsertChars("a".to_string())), ActionTarget::Buffer);
    assert_eq!(determine_action_target(&Action::Undo), ActionTarget::Buffer);
    assert_eq!(determine_action_target(&Action::Move(Motion::Forward, Quantity::Word)), ActionTarget::View);
    assert_eq!(determine_action_target(&Action::Scroll(0, 10)), ActionTarget::View);
    assert_eq!(determine_action_target(&Action::SetMode(Mode::Insert)), ActionTarget::Special);
    assert_eq!(determine_action_target(&Action::RequestLines(0, 4)), ActionTarget::Special);
    assert_eq!(
        determine_action_target(&Action::Repeat(Box::new(Action::Undo), Quantity::Character)),
        ActionTarget::Buffer
    );
}

#[test]
fn action_clone_is_equal() {
    let a = Action::Repeat(Box::new(Action::InsertChars("x".to_string())), Quantity::Line);
    assert_eq!(a.clone(), a);
}

#[test]
fn selected_lines_merge() {
    let text = Text::from_str("a\nb\nc\nd\ne\n");
    let regions = vec![SelRegion::new(0, 2), SelRegion::caret(3), SelRegion::new(8, 6)];
    assert_eq!(selected_line_ranges(&regions, &text), vec![(0, 2), (3, 5)]);
    let apart = vec![SelRegion::caret(0), SelRegion::caret(8)];
    assert_eq!(selected_line_ranges(&apart, &text), vec![(0, 1), (4, 5)]);
    assert_eq!(selected_line_ranges(&[], &text), vec![]);
}

#[test]
fn selected_lines_are_fewest_separated_ranges() {
    // lines: 0 "a", 1 "b", 2 "c", 3 "d", 4 "e"
    let text = Text::from_str("a\nb\nc\nd\ne\n");
    // ordered regions whose line ranges touch or overlap merge into one range
    let regions = vec![SelRegion::caret(0), SelRegion::new(1, 2), SelRegion::caret(4), SelRegion::caret(8)];
    let ranges = selected_line_ranges(&regions, &text);
    assert_eq!(ranges, vec![(0, 3), (4, 5)]);
    for w in ranges.windows(2) {
        assert!(w[0].1 < w[1].0);
    }
    for r in &ranges {
        assert!(r.0 < r.1);
    }
}

use eddy::frontend::editor::ui::editable_text::EditableText;
use eddy::frontend::editor::ui::status::{mode_colour, ModeColour, Status, StatusBar};
use eddy::rpc::{Action, Mode, Motion, Quantity};

#[test]
fn typing_moves_cursor() {
    let mut t = EditableText::new(4);
    assert_eq!(t.index(), 4);
    assert!(t.handle_char('w'));
    assert!(t.handle_char('q'));
    assert_eq!(t.text(), "wq");
    assert_eq!(t.cursor_pos(), 2);
    t.move_cursor(Motion::First, None);
    t.handle_char(':');
    assert_eq!(t.text(), ":wq");
    assert_eq!(t.cursor_pos(), 1);
}

#[test]
fn cursor_motions_stay_in_text() {
    let mut t = EditableText::new(0);
    t.set_text("hello");
    assert_eq!(t.cursor_pos(), 5);
    assert!(t.move_cursor(Motion::Left, Some(Quantity::Number(2))));
    assert_eq!(t.cursor_pos(), 3);
    assert!(t.move_cursor(Motion::Left, Some(Quantity::Number(9))));
    assert_eq!(t.cursor_pos(), 0);
    assert!(t.move_cursor(Motion::Right, Some(Quantity::Word(4))));
    assert_eq!(t.cursor_pos(), 1);
    assert!(t.move_cursor(Motion::Right, Some(Quantity::Number(40))));
    assert_eq!(t.cursor_pos(), 5);
    assert!(t.move_cursor(Motion::First, None));
    assert_eq!(t.cursor_pos(), 0);
    assert!(t.move_cursor(Motion::Last, None));
    assert_eq!(t.cursor_pos(), 5);
    assert!(!t.move_cursor(Motion::Up, None));
    assert_eq!(t.cursor_pos(), 5);
}

#[test]
fn deleting_backward_and_forward() {
    let mut t = EditableText::new(0);
    t.set_text("hello");
    assert!(t.handle_delete(Motion::Left, None));
    assert_eq!(t.text(), "hell");
    assert_eq!(t.cursor_pos(), 4);
    t.move_cursor(Motion::First, None);
    assert!(t.handle_delete(Motion::Right, None));
    assert_eq!(t.text(), "hll");
    assert!(t.handle_delete(Motion::Left, Some(Quantity::All)));
    assert_eq!(t.text(), "");
    assert!(!t.handle_delete(Motion::Left, Some(Quantity::Word(1))));
    assert!(!t.handle_delete(Motion::Up, None));
}

#[test]
fn deleting_single_character_clears() {
    let mut t = EditableText::new(0);
    t.set_text("x");
    assert!(t.handle_delete(Motion::Left, None));
    assert_eq!(t.text(), "");
    assert_eq!(t.cursor_pos(), 0);
}

#[test]
fn typing_then_deleting_restores() {
    let mut t = EditableText::new(0);
    t.set_text("abcd");
    t.move_cursor(Motion::Left, Some(Quantity::Number(2)));
    t.handle_char('x');
    assert_eq!(t.text(), "abxcd");
    t.handle_delete(Motion::Left, Some(Quantity::Number(1)));
    assert_eq!(t.text(), "abcd");
    assert_eq!(t.cursor_pos(), 2);
}

#[test]
fn poke_dispatches_actions() {
    let mut t = EditableText::new(0);
    assert!(t.poke(Action::InsertChar('e')));
    assert!(t.poke(Action::Motion((Motion::First, None))));
    assert_eq!(t.cursor_pos(), 0);
    assert!(t.poke(Action::Delete((Motion::Right, Some(Quantity::Number(0))))));
    assert_eq!(t.text(), "");
    assert!(!t.poke(Action::Undo));
    assert!(t.dirty());
}

#[test]
fn mode_colours() {
    assert_eq!(mode_colour(Mode::Normal), ModeColour::Normal);
    assert_eq!(mode_colour(Mode::Command), ModeColour::Normal);
    assert_eq!(mode_colour(Mode::Insert), ModeColour::Insert);
    assert_eq!(mode_colour(Mode::SelectLine), ModeColour::Select);
    assert_eq!(mode_colour(Mode::Replace), ModeColour::Replace);
    assert_eq!(mode_colour(Mode::Window), ModeColour::Normal);
}

fn status() -> Status {
    Status { mode: Mode::Command, filename: Some("a.rs".to_string()), line_current: 1, line_count: 10, language: None }
}

#[test]
fn status_bar_command_line() {
    let mut bar = StatusBar::new(status());
    assert_eq!(bar.mode(), Mode::Command);
    assert!(bar.poke(Action::InsertChar('w')));
    assert!(bar.poke(Action::InsertChar('q')));
    assert_eq!(bar.get_command(), "wq");
    bar.set_mode(Mode::Normal);
    assert_eq!(bar.get_command(), "");
    assert_eq!(bar.mode(), Mode::Normal);
    bar.update_line_status(4, 20, Some("Rust".to_string()));
    let s = bar.status();
    assert_eq!(s.line_current, 4);
    assert_eq!(s.line_count, 20);
    assert_eq!(s.language, Some("Rust".to_string()));
    bar.update_filename(None);
    assert_eq!(bar.status().filename, None);
}

use eddy::frontend::editor::linecache::{JsonLine, Line as CachedLine, StyleTriple};
use eddy::frontend::editor::ui::text::{line_runs, TextRun};
use eddy::rpc::theme::Style;
use std::collections::HashMap;

#[test]
fn line_runs_follow_styles() {
    let j = JsonLine {
        text: Some("abc\r\n".to_string()),
        ln: None,
        cursor: None,
        styles: Some(vec![StyleTriple { start: 0, len: 1, style_id: 1 }, StyleTriple { start: 0, len: 2, style_id: 2 }, StyleTriple { start: 0, len: 2, style_id: 3 }]),
    };
    let line = CachedLine::from_json(&j);
    let mut styles = HashMap::new();
    styles.insert(1usize, Style { id: 1, fg: Some(0xff), bg: None, italic: false });
    styles.insert(3usize, Style { id: 3, fg: None, bg: None, italic: true });
    let runs = line_runs(&line, &styles);
    assert_eq!(
        runs,
        vec![
            TextRun { content: "a".to_string(), fg: Some(0xff) },
            TextRun { content: "".to_string(), fg: None },
        ]
    );
}

#[test]
fn unstyled_line_is_one_run() {
    let j = JsonLine { text: Some("xy\n".to_string()), ln: None, cursor: None, styles: None };
    let line = CachedLine::from_json(&j);
    let runs = line_runs(&line, &HashMap::new());
    assert_eq!(runs, vec![TextRun { content: "xy".to_string(), fg: None }]);
}

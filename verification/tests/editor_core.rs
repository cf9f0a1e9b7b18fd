use eddy::editor::{count_lines, last_selection_region, EditType, Editor};
use eddy::selection::SelRegion;
use eddy::text::Text;

#[test]
fn new_editor_starts_with_initial_group() {
    let e = Editor::with_text("hello");
    assert_eq!(e.live_undos(), vec![0]);
    assert_eq!(e.cur_undo(), 1);
    assert_eq!(e.get_active_undo_group(), 0);
    assert_eq!(e.get_buffer().to_string(), "hello");
    assert_eq!(e.get_buffer().len(), 5);
    assert_eq!(e.plugin_n_lines(), 1);
}

#[test]
fn empty_editor_has_empty_buffer() {
    let e = Editor::new();
    assert_eq!(e.get_buffer().len(), 0);
    assert_eq!(e.get_edit_type(), EditType::Other);
}

#[test]
fn edits_of_one_kind_share_a_group() {
    let mut e = Editor::with_text("abc");
    e.set_edit_type(EditType::InsertChars);
    assert_eq!(e.calculate_undo_group(), 1);
    assert_eq!(e.live_undos(), vec![0, 1]);
    assert_eq!(e.cur_undo(), 2);
    e.update_edit_type();
    e.set_edit_type(EditType::InsertChars);
    assert_eq!(e.calculate_undo_group(), 1);
    assert_eq!(e.live_undos(), vec![0, 1]);
    e.update_edit_type();
    e.set_edit_type(EditType::Delete);
    assert_eq!(e.calculate_undo_group(), 2);
    assert_eq!(e.live_undos(), vec![0, 1, 2]);
}

#[test]
fn other_edits_always_open_a_group() {
    let mut e = Editor::with_text("abc");
    e.set_edit_type(EditType::Other);
    assert_eq!(e.calculate_undo_group(), 1);
    e.update_edit_type();
    e.set_edit_type(EditType::Other);
    assert_eq!(e.calculate_undo_group(), 2);
}

#[test]
fn forced_group_joins_active_group() {
    let mut e = Editor::with_text("abc");
    e.set_edit_type(EditType::Other);
    assert_eq!(e.calculate_undo_group(), 1);
    e.set_force_undo_group(true);
    e.set_edit_type(EditType::Delete);
    assert_eq!(e.calculate_undo_group(), 1);
    assert_eq!(e.live_undos(), vec![0, 1]);
}

#[test]
fn undo_then_redo_restores_state() {
    let mut e = Editor::with_text("abc");
    e.set_edit_type(EditType::InsertChars);
    e.calculate_undo_group();
    e.do_undo();
    assert_eq!(e.cur_undo(), 1);
    assert!(e.is_undone(1));
    assert_eq!(e.get_edit_type(), EditType::Undo);
    e.do_redo();
    assert_eq!(e.cur_undo(), 2);
    assert!(!e.is_undone(1));
    assert_eq!(e.get_edit_type(), EditType::Redo);
    assert_eq!(e.live_undos(), vec![0, 1]);
}

#[test]
fn initial_group_cannot_be_undone() {
    let mut e = Editor::with_text("abc");
    e.do_undo();
    assert_eq!(e.cur_undo(), 1);
    assert!(!e.is_undone(0));
    e.do_redo();
    assert_eq!(e.cur_undo(), 1);
}

#[test]
fn edit_after_undo_discards_redo() {
    let mut e = Editor::with_text("abc");
    e.set_edit_type(EditType::InsertChars);
    e.calculate_undo_group();
    e.do_undo();
    e.update_edit_type();
    e.set_edit_type(EditType::Delete);
    assert_eq!(e.calculate_undo_group(), 2);
    assert_eq!(e.live_undos(), vec![0, 2]);
    assert_eq!(e.cur_undo(), 2);
    assert!(e.is_garbage(1));
    e.do_redo();
    assert_eq!(e.cur_undo(), 2);
}

#[test]
fn acknowledged_edits_collect_garbage() {
    let mut e = Editor::with_text("abc");
    e.set_edit_type(EditType::InsertChars);
    e.calculate_undo_group();
    e.do_undo();
    e.update_edit_type();
    e.set_edit_type(EditType::Delete);
    e.calculate_undo_group();
    e.increment_revs_in_flight();
    e.increment_revs_in_flight();
    e.dec_revs_in_flight();
    assert!(e.is_garbage(1));
    assert!(e.is_undone(1));
    e.dec_revs_in_flight();
    assert!(!e.is_garbage(1));
    assert!(!e.is_undone(1));
}

#[test]
fn undo_history_is_bounded() {
    let mut e = Editor::with_text("");
    for _ in 0..310 {
        e.set_edit_type(EditType::Other);
        e.calculate_undo_group();
    }
    let live = e.live_undos();
    assert_eq!(live.len(), 300);
    assert_eq!(*live.last().unwrap(), 310);
    assert_eq!(live[0], 11);
    assert!(e.is_garbage(0));
    assert!(e.is_garbage(10));
    assert_eq!(e.cur_undo(), 300);
}

#[test]
fn breaks_undo_group_rules() {
    assert!(EditType::Other.breaks_undo_group(EditType::Other));
    assert!(EditType::Transpose.breaks_undo_group(EditType::Transpose));
    assert!(!EditType::InsertChars.breaks_undo_group(EditType::InsertChars));
    assert!(EditType::InsertChars.breaks_undo_group(EditType::Delete));
    assert!(!EditType::Delete.breaks_undo_group(EditType::Delete));
}

#[test]
fn count_lines_ignores_trailing_newline() {
    assert_eq!(count_lines(""), 1);
    assert_eq!(count_lines("a"), 1);
    assert_eq!(count_lines("a\nb"), 2);
    assert_eq!(count_lines("a\nb\n"), 2);
    assert_eq!(count_lines("\n"), 1);
    assert_eq!(count_lines("\n\n"), 2);
}

#[test]
fn last_selection_region_skips_carets() {
    let regions = vec![SelRegion::caret(1), SelRegion::new(2, 5), SelRegion::new(9, 6), SelRegion::caret(7)];
    assert_eq!(last_selection_region(&regions), Some(&SelRegion::new(9, 6)));
    let carets = vec![SelRegion::caret(1), SelRegion::caret(3)];
    assert_eq!(last_selection_region(&carets), None);
    assert_eq!(last_selection_region(&[]), None);
}

use eddy::editor::{commit_drift, insert_edit_type, paste_line_per_region, surrounding_pair};
use eddy::selection::InsertDrift;
use eddy::view::{get_caret_offset, range_region};

#[test]
fn opening_brackets_surround_selections() {
    assert_eq!(surrounding_pair("("), Some(("(", ")")));
    assert_eq!(surrounding_pair("\""), Some(("\"", "\"")));
    assert_eq!(surrounding_pair("<"), Some(("<", ">")));
    assert_eq!(surrounding_pair(")"), None);
    assert_eq!(surrounding_pair("(("), None);
    let sel = vec![SelRegion::new(1, 4)];
    assert_eq!(insert_edit_type("[", &sel), (EditType::Surround, Some(("[", "]"))));
    let mixed = vec![SelRegion::new(1, 4), SelRegion::caret(6)];
    assert_eq!(insert_edit_type("[", &mixed), (EditType::InsertChars, None));
    assert_eq!(insert_edit_type("x", &sel), (EditType::InsertChars, None));
}

#[test]
fn paste_splits_lines_over_regions() {
    assert!(paste_line_per_region(2, "a\nb"));
    assert!(paste_line_per_region(2, "a\nb\n"));
    assert!(!paste_line_per_region(1, "a"));
    assert!(!paste_line_per_region(3, "a\nb"));
}

#[test]
fn drift_follows_edit_type() {
    assert_eq!(commit_drift(EditType::Transpose), InsertDrift::Inside);
    assert_eq!(commit_drift(EditType::Surround), InsertDrift::Outside);
    assert_eq!(commit_drift(EditType::InsertChars), InsertDrift::Default);
}

#[test]
fn range_regions_and_carets() {
    assert_eq!(range_region((4, 6), 10, (9, 12)), SelRegion::new(4, 12));
    assert_eq!(range_region((4, 6), 1, (0, 3)), SelRegion::new(6, 0));
    assert_eq!(get_caret_offset(&[SelRegion::caret(5)]), Some(5));
    assert_eq!(get_caret_offset(&[SelRegion::new(1, 5)]), None);
    assert_eq!(get_caret_offset(&[SelRegion::caret(1), SelRegion::caret(2)]), None);
}

#[test]
fn saved_text_ends_with_newline() {
    assert_eq!(Editor::with_text("abc").text_for_save().to_string(), "abc\n");
    assert_eq!(Editor::with_text("abc\n").text_for_save().to_string(), "abc\n");
    assert_eq!(Editor::with_text("").text_for_save().to_string(), "");
}

#[test]
fn reload_replaces_text_and_undo_restores_it() {
    let mut e = Editor::with_text("hello\nworld\n");
    assert!(e.is_pristine());
    e.reload(&Text::from_str("hello\nthere\nworld\n"));
    assert_eq!(e.get_buffer().to_string(), "hello\nthere\nworld\n");
    assert!(e.is_pristine());
    assert_eq!(e.live_undos(), vec![0, 1]);
    e.do_undo();
    assert_eq!(e.get_buffer().to_string(), "hello\nworld\n");
    e.do_redo();
    assert_eq!(e.get_buffer().to_string(), "hello\nthere\nworld\n");
}

#[test]
fn reload_of_an_empty_buffer() {
    let mut e = Editor::new();
    e.reload(&Text::from_str("abc"));
    assert_eq!(e.get_buffer().to_string(), "abc");
    assert_eq!(e.get_buffer().len(), 3);
}

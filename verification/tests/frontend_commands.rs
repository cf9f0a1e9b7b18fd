use eddy::frontend::editor::commands::{command_to_actions, split_at_spaces};
use eddy::frontend::editor::linecache::Selection;
use eddy::frontend::editor::view_plan::{
    drawn_selections, handle_action, EditNotification, EditRequest, ViewEffect,
};
use eddy::rpc::{Action, Mode, Motion, PluginAction, Quantity};

fn file() -> Option<String> {
    Some("main.rs".to_string())
}

#[test]
fn split_keeps_empty_fields() {
    assert_eq!(split_at_spaces("w  a"), vec!["w".to_string(), "".to_string(), "a".to_string()]);
    assert_eq!(split_at_spaces(""), vec!["".to_string()]);
}

#[test]
fn file_commands() {
    assert_eq!(command_to_actions(file(), "e".to_string()), vec![Action::Open(file())]);
    assert_eq!(command_to_actions(file(), "e other.rs".to_string()), vec![Action::Open(Some("other.rs".to_string()))]);
    assert_eq!(command_to_actions(None, "w".to_string()), vec![Action::Save(None)]);
    assert_eq!(command_to_actions(file(), "q".to_string()), vec![Action::Close]);
    assert_eq!(command_to_actions(file(), "wq".to_string()), vec![Action::Save(file()), Action::Close]);
    assert_eq!(command_to_actions(file(), "sp b.rs".to_string()), vec![Action::Split(Some("b.rs".to_string()))]);
}

#[test]
fn plugin_commands() {
    assert_eq!(
        command_to_actions(file(), "plug start syntect".to_string()),
        vec![Action::Plugin(PluginAction::Start("syntect".to_string()))]
    );
    assert_eq!(
        command_to_actions(file(), "plug stop syntect".to_string()),
        vec![Action::Plugin(PluginAction::Stop("syntect".to_string()))]
    );
    assert_eq!(command_to_actions(file(), "plug start".to_string()), vec![]);
    assert_eq!(command_to_actions(file(), "plug restart x".to_string()), vec![]);
}

#[test]
fn unknown_commands_do_nothing() {
    assert_eq!(command_to_actions(file(), "bogus".to_string()), vec![]);
    assert_eq!(command_to_actions(file(), "".to_string()), vec![]);
}

fn edits(es: &[EditNotification]) -> Vec<ViewEffect> {
    es.iter().map(|e| ViewEffect::Edit(*e)).collect()
}

#[test]
fn motions_repeat_notifications() {
    let (handled, effects) = handle_action(Action::Motion((Motion::Down, Some(Quantity::Number(3)))), 0, 10, &None);
    assert!(handled);
    assert_eq!(effects, edits(&[EditNotification::MoveDown; 3]));
    let (handled, effects) = handle_action(Action::Motion((Motion::Left, None)), 0, 10, &None);
    assert!(handled);
    assert_eq!(effects, edits(&[EditNotification::MoveLeft]));
    let (handled, effects) = handle_action(Action::Motion((Motion::Up, Some(Quantity::Page(2)))), 0, 10, &None);
    assert!(handled);
    assert_eq!(effects, edits(&[EditNotification::ScrollPageUp; 2]));
}

#[test]
fn unmatched_motions_are_not_handled() {
    let (handled, effects) = handle_action(Action::Motion((Motion::RightEnd, Some(Quantity::Number(2)))), 0, 10, &None);
    assert!(!handled);
    assert!(effects.is_empty());
    let (handled, effects) = handle_action(Action::Motion((Motion::RightEnd, Some(Quantity::Number(0)))), 0, 10, &None);
    assert!(handled);
    assert!(effects.is_empty());
    let (handled, _) = handle_action(Action::Motion((Motion::Up, Some(Quantity::All))), 0, 10, &None);
    assert!(!handled);
    let (handled, _) = handle_action(Action::SearchNext, 0, 10, &None);
    assert!(!handled);
}

#[test]
fn selecting_lines_stops_at_last_line() {
    let (handled, effects) = handle_action(Action::Select((Motion::Down, Some(Quantity::Line(2)))), 5, 6, &None);
    assert!(handled);
    assert_eq!(
        effects,
        edits(&[
            EditNotification::MoveToLeftEndOfLine,
            EditNotification::MoveToRightEndOfLineAndModifySelection,
            EditNotification::MoveDownAndModifySelection,
            EditNotification::MoveToRightEndOfLineAndModifySelection,
        ])
    );
    let (_, effects) = handle_action(Action::Select((Motion::Down, Some(Quantity::Line(2)))), 1, 10, &None);
    assert_eq!(effects.len(), 5);
    let (_, effects) = handle_action(Action::Select((Motion::Down, Some(Quantity::All))), 1, 10, &None);
    assert_eq!(effects, edits(&[EditNotification::SelectAll]));
}

#[test]
fn deleting_lines() {
    let (handled, effects) = handle_action(Action::Delete((Motion::Up, None)), 0, 10, &None);
    assert!(handled);
    assert_eq!(
        effects,
        edits(&[
            EditNotification::MoveUp,
            EditNotification::MoveToLeftEndOfLine,
            EditNotification::MoveToRightEndOfLineAndModifySelection,
            EditNotification::DeleteBackward,
        ])
    );
    let (_, effects) = handle_action(Action::Delete((Motion::Left, Some(Quantity::Word(2)))), 0, 10, &None);
    assert_eq!(effects, edits(&[EditNotification::DeleteWordBackward; 2]));
    let (_, effects) = handle_action(Action::Delete((Motion::Right, Some(Quantity::Number(5)))), 0, 10, &None);
    assert_eq!(effects, edits(&[EditNotification::DeleteForward]));
    let (handled, effects) = handle_action(Action::Delete((Motion::High, None)), 0, 10, &None);
    assert!(handled);
    assert!(effects.is_empty());
}

#[test]
fn clipboard_and_text_actions() {
    let (_, effects) = handle_action(Action::Paste, 0, 10, &Some("xy".to_string()));
    assert_eq!(effects, vec![ViewEffect::Paste("xy".to_string())]);
    let (_, effects) = handle_action(Action::Paste, 0, 10, &None);
    assert_eq!(effects, vec![ViewEffect::Paste("".to_string())]);
    let (_, effects) = handle_action(Action::Cut, 0, 10, &None);
    assert_eq!(effects, vec![ViewEffect::Request(EditRequest::Cut)]);
    let (_, effects) = handle_action(Action::InsertChar('a'), 0, 10, &None);
    assert_eq!(effects, edits(&[EditNotification::InsertChar('a')]));
    let (handled, effects) = handle_action(Action::InsertChar('\n'), 0, 10, &None);
    assert!(handled);
    assert!(effects.is_empty());
    let (_, effects) = handle_action(Action::SetMode(Mode::Insert), 0, 10, &None);
    assert_eq!(effects, vec![ViewEffect::SetMode(Mode::Insert)]);
    let (_, effects) = handle_action(Action::AddCursor(Motion::Down), 0, 10, &None);
    assert_eq!(effects, edits(&[EditNotification::AddSelectionBelow]));
}

#[test]
fn only_nonempty_selections_inside_the_line_are_drawn() {
    let a = Selection { line_num: 2, start_col: 1, end_col: 3 };
    let empty = Selection { line_num: 2, start_col: 2, end_col: 2 };
    let to_end = Selection { line_num: 2, start_col: 0, end_col: 5 };
    let past = Selection { line_num: 2, start_col: 6, end_col: 7 };
    let back = Selection { line_num: 2, start_col: 4, end_col: 0 };
    let sels = vec![&a, &empty, &to_end, &past, &back];
    assert_eq!(drawn_selections(&sels, 5), vec![(1, 3), (4, 0)]);
    assert_eq!(drawn_selections(&sels, 8), vec![(1, 3), (0, 5), (6, 7), (4, 0)]);
    assert!(drawn_selections(&[], 5).is_empty());
}

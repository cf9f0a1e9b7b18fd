//! The actions the editing core performs, and the positions and gestures
//! the frontend sends with them.

use vstd::prelude::*;

use crate::kinds::{Mode, Motion, Quantity};

verus! {

/// A line and column in the text.
#[derive(Debug, Clone, Copy, PartialEq, Eq, Structural)]
pub struct Position {
    pub line: usize,
    pub column: usize,
}

/// A mouse gesture on the text.
#[derive(Debug, Clone, Copy, PartialEq, Eq, Structural)]
pub enum GestureType {
    Select { quantity: Quantity, multi: bool },
    SelectExtend { quantity: Quantity },
    Drag,
}

/// An action of the editing core.
#[derive(Debug, PartialEq)]
pub enum Action {
    NewView { path: Option<String> },
    RequestLines(usize, usize),
    SetMode(Mode),
    SetTheme { theme_name: String },
    ToggleLineNumbers,
    Delete(Motion, Quantity),
    InsertChars(String),
    InsertNewline,
    InsertTab,
    SelectAll,
    Undo,
    Redo,
    Yank,
    Indent,
    Outdent,
    DuplicateLine,
    IncreaseNumber,
    DecreaseNumber,
    Uppercase,
    Lowercase,
    Duplicate(Quantity),
    GoToLine(u64),
    Paste,
    Replace(Quantity),
    Move(Motion, Quantity),
    MoveSelection(Motion, Quantity),
    AddSelection(Motion),
    CollapseSelections,
    Gesture { line: u64, col: u64, ty: GestureType },
    Scroll(usize, usize),
    Repeat(Box<Action>, Quantity),
}

fn clone_opt_string(s: &Option<String>) -> (r: Option<String>)
    ensures
        r == *s,
{
    match s {
        Some(x) => Some(x.clone()),
        None => None,
    }
}

impl Clone for Action {
    fn clone(&self) -> (r: Self)
        ensures
            r == *self,
        decreases self,
    {
        match self {
            Action::NewView { path } => Action::NewView { path: clone_opt_string(path) },
            Action::RequestLines(a, b) => Action::RequestLines(*a, *b),
            Action::SetMode(m) => Action::SetMode(*m),
            Action::SetTheme { theme_name } => Action::SetTheme { theme_name: theme_name.clone() },
            Action::ToggleLineNumbers => Action::ToggleLineNumbers,
            Action::Delete(m, q) => Action::Delete(*m, *q),
            Action::InsertChars(s) => Action::InsertChars(s.clone()),
            Action::InsertNewline => Action::InsertNewline,
            Action::InsertTab => Action::InsertTab,
            Action::SelectAll => Action::SelectAll,
            Action::Undo => Action::Undo,
            Action::Redo => Action::Redo,
            Action::Yank => Action::Yank,
            Action::Indent => Action::Indent,
            Action::Outdent => Action::Outdent,
            Action::DuplicateLine => Action::DuplicateLine,
            Action::IncreaseNumber => Action::IncreaseNumber,
            Action::DecreaseNumber => Action::DecreaseNumber,
            Action::Uppercase => Action::Uppercase,
            Action::Lowercase => Action::Lowercase,
            Action::Duplicate(q) => Action::Duplicate(*q),
            Action::GoToLine(l) => Action::GoToLine(*l),
            Action::Paste => Action::Paste,
            Action::Replace(q) => Action::Replace(*q),
            Action::Move(m, q) => Action::Move(*m, *q),
            Action::MoveSelection(m, q) => Action::MoveSelection(*m, *q),
            Action::AddSelection(m) => Action::AddSelection(*m),
            Action::CollapseSelections => Action::CollapseSelections,
            Action::Gesture { line, col, ty } => Action::Gesture { line: *line, col: *col, ty: *ty },
            Action::Scroll(a, b) => Action::Scroll(*a, *b),
            Action::Repeat(a, q) => {
                let inner: &Action = a;
                Action::Repeat(Box::new(inner.clone()), *q)
            },
        }
    }
}

} // verus!

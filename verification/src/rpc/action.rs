use vstd::prelude::*;

use super::mode::Mode;
use super::motion::Motion;
use super::quantity::Quantity;

verus! {

pub type PluginId = String;

#[derive(Debug, Copy, Clone, PartialEq, Eq, Structural)]
pub enum ActionTarget {
    FocusedView,
    StatusBar,
    EventLoop,
}

#[derive(Debug, PartialEq, Eq)]
pub enum PluginAction {
    Start(PluginId),
    Stop(PluginId),
}

pub type MotionQuantity = (Motion, Option<Quantity>);

#[derive(Debug, PartialEq, Eq)]
pub enum Action {
    Open(Option<String>),
    Save(Option<String>),
    Split(Option<String>),
    Motion(MotionQuantity),
    Select(MotionQuantity),
    Delete(MotionQuantity),
    AddCursor(Motion),
    InsertChar(char),
    SetMode(Mode),
    SetTheme(String),
    SetLanguage(String),
    Plugin(PluginAction),
    Close,
    ExecuteCommand,
    ToggleLineNumbers,
    Indent,
    Outdent,
    InsertTab,
    NewLine,
    DuplicateLine,
    SearchNext,
    SearchPrev,
    SearchStart,
    SearchEnd,
    Copy,
    Yank,
    Cut,
    Paste,
    IncreaseFontSize,
    DecreaseFontSize,
    ClearSelection,
    SingleSelection,
    Undo,
    Redo,
    UpperCase,
    LowerCase,
}


impl Clone for PluginAction {
    fn clone(&self) -> (res: Self)
        ensures
            res == *self,
    {
        match self {
            PluginAction::Start(id) => PluginAction::Start(id.clone()),
            PluginAction::Stop(id) => PluginAction::Stop(id.clone()),
        }
    }
}

impl Clone for Action {
    fn clone(&self) -> (res: Self)
        ensures
            res == *self,
    {
        match self {
            Action::Open(x) => Action::Open(x.clone()),
            Action::Save(x) => Action::Save(x.clone()),
            Action::Split(x) => Action::Split(x.clone()),
            Action::Motion((m, q)) => Action::Motion((*m, *q)),
            Action::Select((m, q)) => Action::Select((*m, *q)),
            Action::Delete((m, q)) => Action::Delete((*m, *q)),
            Action::AddCursor(x) => Action::AddCursor(*x),
            Action::InsertChar(x) => Action::InsertChar(*x),
            Action::SetMode(x) => Action::SetMode(*x),
            Action::SetTheme(x) => Action::SetTheme(x.clone()),
            Action::SetLanguage(x) => Action::SetLanguage(x.clone()),
            Action::Plugin(x) => Action::Plugin(x.clone()),
            Action::Close => Action::Close,
            Action::ExecuteCommand => Action::ExecuteCommand,
            Action::ToggleLineNumbers => Action::ToggleLineNumbers,
            Action::Indent => Action::Indent,
            Action::Outdent => Action::Outdent,
            Action::InsertTab => Action::InsertTab,
            Action::NewLine => Action::NewLine,
            Action::DuplicateLine => Action::DuplicateLine,
            Action::SearchNext => Action::SearchNext,
            Action::SearchPrev => Action::SearchPrev,
            Action::SearchStart => Action::SearchStart,
            Action::SearchEnd => Action::SearchEnd,
            Action::Copy => Action::Copy,
            Action::Yank => Action::Yank,
            Action::Cut => Action::Cut,
            Action::Paste => Action::Paste,
            Action::IncreaseFontSize => Action::IncreaseFontSize,
            Action::DecreaseFontSize => Action::DecreaseFontSize,
            Action::ClearSelection => Action::ClearSelection,
            Action::SingleSelection => Action::SingleSelection,
            Action::Undo => Action::Undo,
            Action::Redo => Action::Redo,
            Action::UpperCase => Action::UpperCase,
            Action::LowerCase => Action::LowerCase,
        }
    }
}

} // verus!

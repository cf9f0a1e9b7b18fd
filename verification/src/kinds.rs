//! The modes, motions and quantities the editing core works with.

use vstd::prelude::*;

verus! {

/// The editing mode of a view.
#[derive(Copy, Clone, Debug, PartialEq, Eq, Structural)]
pub enum Mode {
    NoMode,
    Normal,
    Insert,
    Delete,
    Replace,
    Visual,
    Command,
}

/// A direction or target of a movement.
#[derive(Debug, Clone, Copy, PartialEq, Eq, Structural)]
pub enum Motion {
    NoMotion,
    First,
    Last,
    Begin,
    End,
    Forward,
    Backward,
    Above,
    Below,
}

/// The unit a movement is counted in.
#[derive(Debug, Clone, PartialEq, Eq, Copy, Structural)]
pub enum Quantity {
    Character,
    Word,
    Bracket,
    Line,
    Selection,
    Paragraph,
    Page,
    Document,
}

/// The label a mode is shown with: its variant's name.
pub open spec fn mode_name(mode: Mode) -> Seq<char> {
    match mode {
        Mode::NoMode => "None"@,
        Mode::Normal => "Normal"@,
        Mode::Insert => "Insert"@,
        Mode::Delete => "Delete"@,
        Mode::Replace => "Replace"@,
        Mode::Visual => "Visual"@,
        Mode::Command => "Command"@,
    }
}

impl Mode {
    /// The name of the mode.
    pub fn to_string(&self) -> (s: String)
        ensures
            s@ == mode_name(*self),
    {
        match self {
            Mode::NoMode => String::from_str("None"),
            Mode::Normal => String::from_str("Normal"),
            Mode::Insert => String::from_str("Insert"),
            Mode::Delete => String::from_str("Delete"),
            Mode::Replace => String::from_str("Replace"),
            Mode::Visual => String::from_str("Visual"),
            Mode::Command => String::from_str("Command"),
        }
    }
}

} // verus!

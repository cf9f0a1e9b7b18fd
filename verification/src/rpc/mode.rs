use vstd::prelude::*;

verus! {

#[derive(Debug, Copy, Clone, PartialEq, Eq, Hash, Structural)]
pub enum Mode {
    Normal,
    Insert,
    Delete,
    Replace,
    Command,
    Select,
    SelectLine,
    SelectBlock,
    Window,
    Motion,
    FindReplace,
    NoMode,
}

/// The label a mode is displayed with in the status bar.
pub open spec fn mode_label(mode: Mode) -> Seq<char> {
    match mode {
        Mode::Normal => "NORMAL"@,
        Mode::Insert => "INSERT"@,
        Mode::Replace => "REPLACE"@,
        Mode::Command => "COMMAND"@,
        Mode::Select => "VISUAL"@,
        Mode::SelectBlock => "V-BLOCK"@,
        Mode::SelectLine => "V-LINE"@,
        Mode::Window => "WINDOW"@,
        Mode::Motion => "MOTION"@,
        Mode::Delete => "Delete"@,
        Mode::FindReplace => "FindReplace"@,
        Mode::NoMode => "None"@,
    }
}

impl Mode {
    /// The text the mode is displayed as.
    pub fn to_string(&self) -> (s: String)
        ensures
            s@ == mode_label(*self),
    {
        match self {
            Mode::Normal => String::from_str("NORMAL"),
            Mode::Insert => String::from_str("INSERT"),
            Mode::Replace => String::from_str("REPLACE"),
            Mode::Command => String::from_str("COMMAND"),
            Mode::Select => String::from_str("VISUAL"),
            Mode::SelectBlock => String::from_str("V-BLOCK"),
            Mode::SelectLine => String::from_str("V-LINE"),
            Mode::Window => String::from_str("WINDOW"),
            Mode::Motion => String::from_str("MOTION"),
            Mode::Delete => String::from_str("Delete"),
            Mode::FindReplace => String::from_str("FindReplace"),
            Mode::NoMode => String::from_str("None"),
        }
    }
}

} // verus!

use vstd::prelude::*;

verus! {

#[derive(Debug, Copy, Clone, PartialEq, Eq, Hash, Structural)]
pub enum Mode {
    Normal,
    Insert,
    Replace,
    Select,
    LineSelect,
    BlockSelect,
    Command,
    NoMode,
}

/// The label a mode is displayed with.
pub open spec fn mode_label(mode: Mode) -> Seq<char> {
    match mode {
        Mode::Normal => "NORMAL"@,
        Mode::Insert => "INSERT"@,
        Mode::Replace => "REPLACE"@,
        Mode::Command => "COMMAND"@,
        Mode::Select => "VISUAL"@,
        Mode::BlockSelect => "V-BLOCK"@,
        Mode::LineSelect => "V-LINE"@,
        Mode::NoMode => "None"@,
    }
}

impl Mode {
    /// The text the mode is displayed as.
    pub fn to_string(&self) -> (s: String)
        ensures
            s@ == mode_label(*self),
    {
        match self {
            Mode::Normal => String::from_str("NORMAL"),
            Mode::Insert => String::from_str("INSERT"),
            Mode::Replace => String::from_str("REPLACE"),
            Mode::Command => String::from_str("COMMAND"),
            Mode::Select => String::from_str("VISUAL"),
            Mode::BlockSelect => String::from_str("V-BLOCK"),
            Mode::LineSelect => String::from_str("V-LINE"),
            Mode::NoMode => String::from_str("None"),
        }
    }
}

} // verus!

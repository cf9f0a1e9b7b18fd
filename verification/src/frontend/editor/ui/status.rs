//! The state shown by the status bar: the mode, the file, the line
//! position and the command being typed.

use vstd::prelude::*;

use crate::rpc::{Action, Mode, Motion, Quantity};

use super::editable_text::{poke_ok, poked, EditableText, EditableTextModel};

verus! {

/// What the status bar shows.
pub struct Status {
    pub mode: Mode,
    pub filename: Option<String>,
    pub line_current: usize,
    pub line_count: usize,
    pub language: Option<String>,
}

impl Clone for Status {
    fn clone(&self) -> (s: Self)
        ensures
            s == *self,
    {
        Status {
            mode: self.mode,
            filename: match &self.filename {
                Some(f) => Some(f.clone()),
                None => None,
            },
            line_current: self.line_current,
            line_count: self.line_count,
            language: match &self.language {
                Some(l) => Some(l.clone()),
                None => None,
            },
        }
    }
}

/// The colour the mode indicator is drawn in.
#[derive(Debug, Clone, Copy, PartialEq, Eq, Structural)]
pub enum ModeColour {
    Normal,
    Insert,
    Select,
    Replace,
}

pub open spec fn spec_mode_colour(mode: Mode) -> ModeColour {
    match mode {
        Mode::Normal => ModeColour::Normal,
        Mode::Command => ModeColour::Normal,
        Mode::Insert => ModeColour::Insert,
        Mode::Select => ModeColour::Select,
        Mode::SelectBlock => ModeColour::Select,
        Mode::SelectLine => ModeColour::Select,
        Mode::Replace => ModeColour::Replace,
        _ => ModeColour::Normal,
    }
}

/// The colour of a mode's indicator: selection modes share one colour,
/// and modes without their own colour use that of the normal mode.
pub fn mode_colour(mode: Mode) -> (c: ModeColour)
    ensures
        c == spec_mode_colour(mode),
{
    match mode {
        Mode::Normal => ModeColour::Normal,
        Mode::Command => ModeColour::Normal,
        Mode::Insert => ModeColour::Insert,
        Mode::Select => ModeColour::Select,
        Mode::SelectBlock => ModeColour::Select,
        Mode::SelectLine => ModeColour::Select,
        Mode::Replace => ModeColour::Replace,
        _ => ModeColour::Normal,
    }
}

/// The status bar: what it shows and the command line it holds.
pub struct StatusBar {
    status: Status,
    focused: bool,
    dirty: bool,
    command: EditableText,
}

impl StatusBar {
    pub closed spec fn spec_status(&self) -> Status {
        self.status
    }

    pub closed spec fn spec_command(&self) -> EditableTextModel {
        self.command@
    }

    pub closed spec fn spec_focused(&self) -> bool {
        self.focused
    }

    pub closed spec fn spec_dirty(&self) -> bool {
        self.dirty
    }

    /// A status bar showing `status`, with an empty command line.
    pub fn new(status: Status) -> (s: StatusBar)
        ensures
            s.spec_status() == (Status { mode: s.spec_status().mode, ..status }),
            s.spec_status().mode == status.mode,
            !s.spec_focused(),
            s.spec_dirty(),
            s.spec_command().bytes.len() == 0,
    {
        let mode = status.mode;
        let mut bar = StatusBar { status, focused: false, dirty: true, command: EditableText::new(4) };
        bar.set_mode(mode);
        bar
    }

    /// The mode shown.
    pub fn mode(&self) -> (m: Mode)
        ensures
            m == self.spec_status().mode,
    {
        self.status.mode
    }

    /// What the status bar shows.
    pub fn status(&self) -> (s: Status)
        ensures
            s == self.spec_status(),
    {
        self.status.clone()
    }

    /// Whether the status bar has the focus.
    pub fn focused(&self) -> (f: bool)
        ensures
            f == self.spec_focused(),
    {
        self.focused
    }

    /// Gives or takes the focus.
    pub fn set_focused(&mut self, focused: bool)
        ensures
            final(self).spec_focused() == focused,
            final(self).spec_status() == old(self).spec_status(),
            final(self).spec_command() == old(self).spec_command(),
            final(self).spec_dirty() == old(self).spec_dirty(),
    {
        self.focused = focused;
    }

    /// The command typed so far.
    pub fn get_command(&self) -> (s: String)
        ensures
            super::editable_text::utf8_bytes(s) == self.spec_command().bytes,
    {
        self.command.text()
    }

    /// Replaces the command line's text.
    pub fn set_command_text(&mut self, command: &str)
        ensures
            final(self).spec_command().bytes == vstd::utf8::encode_utf8(command@),
            final(self).spec_command().cursor_pos == vstd::utf8::encode_utf8(command@).len(),
            final(self).spec_status() == old(self).spec_status(),
            final(self).spec_focused() == old(self).spec_focused(),
            final(self).spec_dirty() == old(self).spec_dirty(),
    {
        self.command.set_text(command);
    }

    /// Shows `mode`. Leaving the command mode clears the command line,
    /// unfocuses it and puts its cursor at its start.
    pub fn set_mode(&mut self, mode: Mode)
        ensures
            final(self).spec_status() == (Status { mode, ..old(self).spec_status() }),
            final(self).spec_dirty(),
            final(self).spec_focused() == old(self).spec_focused(),
            mode != Mode::Command ==> final(self).spec_command() == (EditableTextModel {
                bytes: Seq::empty(),
                cursor_pos: 0,
                focused: false,
                dirty: true,
            }),
            mode == Mode::Command ==> final(self).spec_command() == old(self).spec_command(),
    {
        if mode != Mode::Command {
            self.set_command_text("");
            self.command.set_focused(false);
            proof {
                reveal_strlit("");
            }
            self.command.poke(Action::Motion((Motion::First, Some(Quantity::default()))));
        }
        self.status.mode = mode;
        self.dirty = true;
    }

    /// Shows the file name.
    pub fn update_filename(&mut self, filename: Option<String>)
        ensures
            final(self).spec_status() == (Status { filename, ..old(self).spec_status() }),
            final(self).spec_command() == old(self).spec_command(),
            final(self).spec_focused() == old(self).spec_focused(),
            final(self).spec_dirty() == old(self).spec_dirty(),
    {
        self.status.filename = filename;
    }

    /// Shows the line position and the language.
    pub fn update_line_status(&mut self, line_num: usize, line_count: usize, language: Option<String>)
        ensures
            final(self).spec_status() == (Status {
                line_current: line_num,
                line_count,
                language,
                ..old(self).spec_status()
            }),
            final(self).spec_command() == old(self).spec_command(),
            final(self).spec_focused() == old(self).spec_focused(),
            final(self).spec_dirty() == old(self).spec_dirty(),
    {
        self.status.line_count = line_count;
        self.status.line_current = line_num;
        self.status.language = language;
    }

    /// Passes an action to the command line, which takes the focus.
    pub fn poke(&mut self, action: Action) -> (handled: bool)
        requires
            poke_ok(EditableTextModel { focused: true, dirty: true, ..old(self).spec_command() }, action),
        ensures
            (handled, final(self).spec_command()) == poked(
                EditableTextModel { focused: true, dirty: true, ..old(self).spec_command() },
                action,
            ),
            final(self).spec_dirty(),
            final(self).spec_status() == old(self).spec_status(),
            final(self).spec_focused() == old(self).spec_focused(),
    {
        self.dirty = true;
        self.command.set_focused(true);
        self.command.poke(action)
    }
}

} // verus!

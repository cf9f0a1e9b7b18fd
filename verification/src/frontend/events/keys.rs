//! Keys, mouse buttons and modifier keys.

use vstd::prelude::*;

verus! {

/// A key, as the windowing system names it.
#[derive(Debug, Clone, Copy, PartialEq, Eq, Hash, Structural)]
pub enum KeyCode {
    Key1,
    Key2,
    Key3,
    Key4,
    Key5,
    Key6,
    Key7,
    Key8,
    Key9,
    Key0,
    A,
    B,
    C,
    D,
    E,
    F,
    G,
    H,
    I,
    J,
    K,
    L,
    M,
    N,
    O,
    P,
    Q,
    R,
    S,
    T,
    U,
    V,
    W,
    X,
    Y,
    Z,
    Escape,
    Home,
    Delete,
    End,
    PageDown,
    PageUp,
    Left,
    Up,
    Right,
    Down,
    Back,
    Return,
    Space,
    Apostrophe,
    Backslash,
    Colon,
    Comma,
    Equals,
    Grave,
    LBracket,
    Minus,
    Period,
    Plus,
    RBracket,
    Semicolon,
    Slash,
    Tab,
    F1,
    F2,
    F3,
    F4,
    F5,
    F6,
    F7,
    F8,
    F9,
    F10,
    F11,
    F12,
    /// Any other key, by the windowing system's number for it.
    Other(u32),
}

/// A pressed key: by its code, or by its scan code when the windowing
/// system does not name it.
#[derive(Copy, Clone, Debug, Eq, PartialEq, Hash, Structural)]
pub enum Key {
    ScanCode(u32),
    KeyCode(KeyCode),
}

/// A mouse button.
#[derive(Debug, Hash, PartialEq, Eq, Clone, Copy, Structural)]
pub enum MouseButton {
    Left,
    Right,
    Middle,
    Other(u16),
}

/// The modifier keys held, as bits.
#[derive(Debug, Default, Clone, Copy, PartialEq, Eq, Hash, Structural)]
pub struct ModifiersState {
    pub bits: u32,
}

/// The "shift" key.
pub const SHIFT: u32 = 4;
/// The "control" key.
pub const CTRL: u32 = 32;
/// The "alt" key.
pub const ALT: u32 = 256;
/// The "windows" key on PC and "command" key on Mac.
pub const LOGO: u32 = 2048;

impl ModifiersState {
    /// No modifier held.
    pub fn empty() -> (m: ModifiersState)
        ensures
            m.bits == 0,
    {
        ModifiersState { bits: 0 }
    }

    /// Only shift held.
    pub fn shift_only() -> (m: ModifiersState)
        ensures
            m.bits == SHIFT,
    {
        ModifiersState { bits: SHIFT }
    }

    /// Only control held.
    pub fn ctrl_only() -> (m: ModifiersState)
        ensures
            m.bits == CTRL,
    {
        ModifiersState { bits: CTRL }
    }

    /// Only alt held.
    pub fn alt_only() -> (m: ModifiersState)
        ensures
            m.bits == ALT,
    {
        ModifiersState { bits: ALT }
    }

    /// Whether every modifier of `other` is held.
    pub fn contains(&self, other: ModifiersState) -> (b: bool)
        ensures
            b == (self.bits & other.bits == other.bits),
    {
        self.bits & other.bits == other.bits
    }

    /// Whether shift is held.
    pub fn shift(&self) -> (b: bool)
        ensures
            b == (self.bits & SHIFT != 0),
    {
        self.bits & SHIFT != 0
    }

    /// Whether control is held.
    pub fn ctrl(&self) -> (b: bool)
        ensures
            b == (self.bits & CTRL != 0),
    {
        self.bits & CTRL != 0
    }

    /// Whether alt is held.
    pub fn alt(&self) -> (b: bool)
        ensures
            b == (self.bits & ALT != 0),
    {
        self.bits & ALT != 0
    }

    /// Whether the logo key is held.
    pub fn logo(&self) -> (b: bool)
        ensures
            b == (self.bits & LOGO != 0),
    {
        self.bits & LOGO != 0
    }
}

} // verus!

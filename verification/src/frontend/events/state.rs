//! The state of the keyboard: the key held and the modifiers.

use vstd::prelude::*;

use super::keys::{Key, KeyCode, ModifiersState};
use super::mapper::{map_scancode, scancode_key};

verus! {

/// Whether a key went down or up.
#[derive(Debug, Clone, Copy, PartialEq, Eq, Structural)]
pub enum ElementState {
    Pressed,
    Released,
}

/// A key going down or up.
#[derive(Debug, Clone, Copy, PartialEq, Eq, Structural)]
pub struct KeyboardInput {
    pub scancode: u32,
    pub state: ElementState,
    pub virtual_keycode: Option<KeyCode>,
}

/// An input event, as far as the keyboard state follows it.
#[derive(Debug, Clone, Copy, PartialEq, Eq, Structural)]
pub enum KeyEvent {
    KeyboardInput(KeyboardInput),
    ModifiersChanged(ModifiersState),
    Other,
}

/// The key a key press names: the scan code's own key where the windowing
/// system does not name it, else the key code, else the scan code.
pub open spec fn pressed_key(input: KeyboardInput) -> Key {
    match scancode_key(input.scancode) {
        Some(k) => Key::KeyCode(k),
        None => match input.virtual_keycode {
            Some(k) => Key::KeyCode(k),
            None => Key::ScanCode(input.scancode),
        },
    }
}

/// The key held and the modifiers held.
#[derive(Debug, Clone, Copy, PartialEq, Eq, Structural)]
pub struct KeyboardState {
    pub key: Option<Key>,
    pub modifiers: ModifiersState,
}

impl KeyboardState {
    /// No key and no modifier held.
    pub fn new() -> (s: KeyboardState)
        ensures
            s.key is None,
            s.modifiers.bits == 0,
    {
        KeyboardState { key: None, modifiers: ModifiersState::empty() }
    }

    /// Follows an event: a press holds its key, a release holds none, a
    /// change of modifiers replaces them. Returns whether the state
    /// changed.
    pub fn update(&mut self, event: KeyEvent) -> (changed: bool)
        ensures
            final(self).key == (match event {
                KeyEvent::KeyboardInput(input) => match input.state {
                    ElementState::Pressed => Some(pressed_key(input)),
                    ElementState::Released => None,
                },
                _ => old(self).key,
            }),
            final(self).modifiers == (match event {
                KeyEvent::ModifiersChanged(mods) => mods,
                _ => old(self).modifiers,
            }),
            changed == (final(self).key != old(self).key || final(self).modifiers != old(self).modifiers),
    {
        let old_key = self.key;
        let old_mods = self.modifiers;
        self.key = match event {
            KeyEvent::KeyboardInput(input) => match input.state {
                ElementState::Pressed => {
                    if let Some(mapped_scancode) = map_scancode(input.scancode) {
                        Some(Key::KeyCode(mapped_scancode))
                    } else if let Some(k) = input.virtual_keycode {
                        Some(Key::KeyCode(k))
                    } else {
                        Some(Key::ScanCode(input.scancode))
                    }
                },
                ElementState::Released => None,
            },
            _ => old_key,
        };
        self.modifiers = match event {
            KeyEvent::ModifiersChanged(mods) => mods,
            _ => old_mods,
        };
        old_key != self.key || old_mods != self.modifiers
    }
}

} // verus!

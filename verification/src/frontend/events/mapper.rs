//! Keys the windowing system reports only by scan code or as characters.

use vstd::prelude::*;

use super::keys::KeyCode;

verus! {

/// The key of a scan code the windowing system does not name.
pub open spec fn scancode_key(scancode: u32) -> Option<KeyCode> {
    if scancode == 0x02 {
        Some(KeyCode::Key1)
    } else if scancode == 0x03 {
        Some(KeyCode::Key2)
    } else if scancode == 0x04 {
        Some(KeyCode::Key3)
    } else if scancode == 0x05 {
        Some(KeyCode::Key4)
    } else if scancode == 0x06 {
        Some(KeyCode::Key5)
    } else if scancode == 0x07 {
        Some(KeyCode::Key6)
    } else if scancode == 0x08 {
        Some(KeyCode::Key7)
    } else if scancode == 0x09 {
        Some(KeyCode::Key8)
    } else if scancode == 0x0a {
        Some(KeyCode::Key9)
    } else if scancode == 0x0b {
        Some(KeyCode::Key0)
    } else if scancode == 0x0c {
        Some(KeyCode::Minus)
    } else if scancode == 0x28 {
        Some(KeyCode::Apostrophe)
    } else if scancode == 0x29 {
        Some(KeyCode::Grave)
    } else if scancode == 0x33 {
        Some(KeyCode::Comma)
    } else if scancode == 0x34 {
        Some(KeyCode::Period)
    } else if scancode == 0x35 {
        Some(KeyCode::Slash)
    } else if scancode == 0x2b {
        Some(KeyCode::Backslash)
    } else if scancode == 0x7e {
        Some(KeyCode::Grave)
    } else if scancode == 0x1a {
        Some(KeyCode::LBracket)
    } else if scancode == 0x1b {
        Some(KeyCode::RBracket)
    } else {
        None
    }
}

/// Due to some missing scancodes in the windowing system, we map them
/// here.
pub fn map_scancode(scancode: u32) -> (k: Option<KeyCode>)
    ensures
        k == scancode_key(scancode),
{
    match scancode {
        0x02 => Some(KeyCode::Key1),
        0x03 => Some(KeyCode::Key2),
        0x04 => Some(KeyCode::Key3),
        0x05 => Some(KeyCode::Key4),
        0x06 => Some(KeyCode::Key5),
        0x07 => Some(KeyCode::Key6),
        0x08 => Some(KeyCode::Key7),
        0x09 => Some(KeyCode::Key8),
        0x0a => Some(KeyCode::Key9),
        0x0b => Some(KeyCode::Key0),
        0x0c => Some(KeyCode::Minus),
        0x28 => Some(KeyCode::Apostrophe),
        0x29 => Some(KeyCode::Grave),
        0x33 => Some(KeyCode::Comma),
        0x34 => Some(KeyCode::Period),
        0x35 => Some(KeyCode::Slash),
        0x2b => Some(KeyCode::Backslash),
        0x7e => Some(KeyCode::Grave),
        0x1a => Some(KeyCode::LBracket),
        0x1b => Some(KeyCode::RBracket),
        _ => None,
    }
}

/// The letter keys, in order.
pub open spec fn letter_keys() -> Seq<KeyCode> {
    seq![
        KeyCode::A, KeyCode::B, KeyCode::C, KeyCode::D, KeyCode::E, KeyCode::F, KeyCode::G,
        KeyCode::H, KeyCode::I, KeyCode::J, KeyCode::K, KeyCode::L, KeyCode::M, KeyCode::N,
        KeyCode::O, KeyCode::P, KeyCode::Q, KeyCode::R, KeyCode::S, KeyCode::T, KeyCode::U,
        KeyCode::V, KeyCode::W, KeyCode::X, KeyCode::Y, KeyCode::Z,
    ]
}

/// The digit keys, in order from 0.
pub open spec fn digit_keys() -> Seq<KeyCode> {
    seq![
        KeyCode::Key0, KeyCode::Key1, KeyCode::Key2, KeyCode::Key3, KeyCode::Key4,
        KeyCode::Key5, KeyCode::Key6, KeyCode::Key7, KeyCode::Key8, KeyCode::Key9,
    ]
}

/// The key that types a character, going by its upper case: letters and
/// digits have keys; so do the dotless i and the long s, whose upper case
/// is an ASCII letter.
pub open spec fn char_key(ch: char) -> Option<KeyCode> {
    let c = ch as u32;
    if 'A' as u32 <= c <= 'Z' as u32 {
        Some(letter_keys()[c - 'A' as u32])
    } else if 'a' as u32 <= c <= 'z' as u32 {
        Some(letter_keys()[c - 'a' as u32])
    } else if '0' as u32 <= c <= '9' as u32 {
        Some(digit_keys()[c - '0' as u32])
    } else if c == 0x131 {
        Some(KeyCode::I)
    } else if c == 0x17f {
        Some(KeyCode::S)
    } else {
        None
    }
}

/// The key that types a character.
pub fn map_char(ch: char) -> (k: Option<KeyCode>)
    ensures
        k == char_key(ch),
{
    let upper = if 'a' <= ch && ch <= 'z' {
        ((ch as u32) - 32) as u8
    } else if 'A' <= ch && ch <= 'Z' || '0' <= ch && ch <= '9' {
        ch as u32 as u8
    } else if ch as u32 == 0x131 {
        'I' as u32 as u8
    } else if ch as u32 == 0x17f {
        'S' as u32 as u8
    } else {
        0u8
    };
    let k = match upper {
        65 => Some(KeyCode::A),
        66 => Some(KeyCode::B),
        67 => Some(KeyCode::C),
        68 => Some(KeyCode::D),
        69 => Some(KeyCode::E),
        70 => Some(KeyCode::F),
        71 => Some(KeyCode::G),
        72 => Some(KeyCode::H),
        73 => Some(KeyCode::I),
        74 => Some(KeyCode::J),
        75 => Some(KeyCode::K),
        76 => Some(KeyCode::L),
        77 => Some(KeyCode::M),
        78 => Some(KeyCode::N),
        79 => Some(KeyCode::O),
        80 => Some(KeyCode::P),
        81 => Some(KeyCode::Q),
        82 => Some(KeyCode::R),
        83 => Some(KeyCode::S),
        84 => Some(KeyCode::T),
        85 => Some(KeyCode::U),
        86 => Some(KeyCode::V),
        87 => Some(KeyCode::W),
        88 => Some(KeyCode::X),
        89 => Some(KeyCode::Y),
        90 => Some(KeyCode::Z),
        48 => Some(KeyCode::Key0),
        49 => Some(KeyCode::Key1),
        50 => Some(KeyCode::Key2),
        51 => Some(KeyCode::Key3),
        52 => Some(KeyCode::Key4),
        53 => Some(KeyCode::Key5),
        54 => Some(KeyCode::Key6),
        55 => Some(KeyCode::Key7),
        56 => Some(KeyCode::Key8),
        57 => Some(KeyCode::Key9),
        _ => None,
    };
    k
}

} // verus!

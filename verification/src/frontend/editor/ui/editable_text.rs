//! A single line of editable text with a cursor, as the command line of
//! the status bar uses it. Positions are byte offsets into the text.

use vstd::prelude::*;

use vstd::utf8::{encode_utf8, is_ascii_chars, is_ascii_chars_encode_utf8, is_char_boundary, pop_first_scalar};

use crate::rpc::{Action, Motion, Quantity};

verus! {

/// The UTF-8 bytes of a string.
pub open spec fn utf8_bytes(s: String) -> Seq<u8> {
    encode_utf8(s@)
}

/// `String::insert` of std: inserts a character at a byte position that
/// lies on a character boundary.
#[verifier::external_body]
fn string_insert(s: &mut String, idx: usize, ch: char)
    requires
        idx <= utf8_bytes(*old(s)).len(),
        is_char_boundary(utf8_bytes(*old(s)), idx as int),
    ensures
        utf8_bytes(*final(s)) == utf8_bytes(*old(s)).take(idx as int) + encode_utf8(seq![ch])
            + utf8_bytes(*old(s)).skip(idx as int),
{
    s.insert(idx, ch)
}

/// `String::remove` of std: removes the character that starts at a byte
/// position on a character boundary before the end.
#[verifier::external_body]
fn string_remove(s: &mut String, idx: usize) -> (c: char)
    requires
        idx < utf8_bytes(*old(s)).len(),
        is_char_boundary(utf8_bytes(*old(s)), idx as int),
    ensures
        utf8_bytes(*final(s)) == removed_at(utf8_bytes(*old(s)), idx as int),
{
    s.remove(idx)
}

/// `String::len` of std: the length of the string in bytes.
#[verifier::external_body]
fn string_len(s: &String) -> (n: usize)
    ensures
        n == utf8_bytes(*s).len(),
{
    s.len()
}

/// The bytes with the character that starts at `idx` taken out.
pub open spec fn removed_at(bytes: Seq<u8>, idx: int) -> Seq<u8> {
    bytes.take(idx) + pop_first_scalar(bytes.skip(idx))
}

/// The bytes with the encoding of `ch` put in at `idx`.
pub open spec fn inserted_at(bytes: Seq<u8>, idx: int, ch: char) -> Seq<u8> {
    bytes.take(idx) + encode_utf8(seq![ch]) + bytes.skip(idx)
}

/// The state of an editable text.
pub ghost struct EditableTextModel {
    pub bytes: Seq<u8>,
    pub cursor_pos: nat,
    pub focused: bool,
    pub dirty: bool,
}

/// The number of bytes a motion moves by: the count of a `Number`
/// quantity, one otherwise.
pub open spec fn motion_count(quantity: Option<Quantity>) -> nat {
    match quantity {
        Some(Quantity::Number(c)) => c as nat,
        None => 1,
        _ => 1,
    }
}

/// Where a motion takes the cursor in a text of `len` bytes; `None` for a
/// motion the text does not handle.
pub open spec fn moved_cursor(cursor_pos: nat, len: nat, motion: Motion, quantity: Option<Quantity>) -> Option<nat> {
    let n = motion_count(quantity);
    match motion {
        Motion::Left => Some(if cursor_pos > n { (cursor_pos - n) as nat } else { 0 }),
        Motion::Right => Some(if cursor_pos + n < len { cursor_pos + n } else { len }),
        Motion::First => Some(0),
        Motion::Last => Some(len),
        _ => None,
    }
}

/// A motion can be made without overflow.
pub open spec fn motion_fits(cursor_pos: nat, motion: Motion, quantity: Option<Quantity>) -> bool {
    motion == Motion::Right ==> cursor_pos + motion_count(quantity) <= usize::MAX
}

/// The state after a typed character: put in at the cursor, which moves
/// on by one byte, when the cursor is within the text.
pub open spec fn typed(m: EditableTextModel, ch: char) -> EditableTextModel {
    if m.cursor_pos <= m.bytes.len() {
        let bytes = inserted_at(m.bytes, m.cursor_pos as int, ch);
        EditableTextModel {
            bytes,
            cursor_pos: moved_cursor(m.cursor_pos, bytes.len(), Motion::Right, Some(Quantity::Number(1))).unwrap(),
            ..m
        }
    } else {
        m
    }
}

/// A character can be typed without a panic.
pub open spec fn typing_ok(m: EditableTextModel) -> bool {
    m.cursor_pos <= m.bytes.len() ==> is_char_boundary(m.bytes, m.cursor_pos as int) && m.cursor_pos + 1
        <= usize::MAX
}

/// Whether a backward delete of `n` bytes removes a character.
pub open spec fn deletes_left(len: nat, cursor_pos: nat, n: nat) -> bool {
    len > n && cursor_pos > 0 && cursor_pos + n - 1 <= len
}

/// The state after a delete, and whether the text handles it: all or a
/// line clears the text; a backward delete of `n` removes the character
/// `n` bytes before the cursor and moves it back one byte (a text of one
/// byte is cleared); a forward delete removes the character `n` bytes
/// after the cursor when there is one.
pub open spec fn deleted(m: EditableTextModel, motion: Motion, quantity: Option<Quantity>) -> (bool, EditableTextModel) {
    let q = match quantity {
        Some(q) => q,
        None => Quantity::Number(1),
    };
    let len = m.bytes.len();
    match q {
        Quantity::All | Quantity::Line(_) => (true, EditableTextModel { bytes: Seq::empty(), ..m }),
        Quantity::Number(n) => match motion {
            Motion::Left => if deletes_left(len, m.cursor_pos, n as nat) {
                let bytes = removed_at(m.bytes, m.cursor_pos - n);
                (
                    true,
                    EditableTextModel {
                        bytes,
                        cursor_pos: moved_cursor(m.cursor_pos, bytes.len(), Motion::Left, None).unwrap(),
                        ..m
                    },
                )
            } else if len == 1 {
                (
                    true,
                    EditableTextModel {
                        bytes: Seq::empty(),
                        cursor_pos: moved_cursor(m.cursor_pos, 0, Motion::Left, None).unwrap(),
                        ..m
                    },
                )
            } else {
                (true, m)
            },
            Motion::Right => if m.cursor_pos + n < len {
                (true, EditableTextModel { bytes: removed_at(m.bytes, m.cursor_pos + n), ..m })
            } else {
                (true, m)
            },
            _ => (false, m),
        },
        _ => (false, m),
    }
}

/// A delete can be made without a panic.
pub open spec fn delete_ok(m: EditableTextModel, motion: Motion, quantity: Option<Quantity>) -> bool {
    let q = match quantity {
        Some(q) => q,
        None => Quantity::Number(1),
    };
    let len = m.bytes.len();
    match q {
        Quantity::Number(n) => match motion {
            Motion::Left => (len > n && m.cursor_pos > 0 ==> m.cursor_pos + n <= usize::MAX) && (
            deletes_left(len, m.cursor_pos, n as nat) ==> {
                &&& m.cursor_pos >= n
                &&& m.cursor_pos - n < len
                &&& is_char_boundary(m.bytes, m.cursor_pos - n)
            }),
            Motion::Right => m.cursor_pos + n <= usize::MAX && (m.cursor_pos + n < len ==> is_char_boundary(
                m.bytes,
                m.cursor_pos + n,
            )),
            _ => true,
        },
        _ => true,
    }
}

/// A line of editable text with a cursor.
pub struct EditableText {
    index: usize,
    dirty: bool,
    focused: bool,
    text: String,
    cursor_pos: usize,
}

impl View for EditableText {
    type V = EditableTextModel;

    closed spec fn view(&self) -> EditableTextModel {
        EditableTextModel {
            bytes: utf8_bytes(self.text),
            cursor_pos: self.cursor_pos as nat,
            focused: self.focused,
            dirty: self.dirty,
        }
    }
}

impl EditableText {
    /// The widget index the text is drawn with.
    pub closed spec fn spec_index(&self) -> usize {
        self.index
    }

    /// An empty text with the cursor at its start, unfocused.
    pub fn new(index: usize) -> (t: EditableText)
        ensures
            t@ == (EditableTextModel { bytes: Seq::empty(), cursor_pos: 0, focused: false, dirty: true }),
            t.spec_index() == index,
    {
        EditableText { index, text: String::new(), cursor_pos: 0, focused: false, dirty: true }
    }

    /// The widget index.
    pub fn index(&self) -> (i: usize)
        ensures
            i == self.spec_index(),
    {
        self.index
    }

    /// Whether the text changed since it was last drawn.
    pub fn dirty(&self) -> (d: bool)
        ensures
            d == self@.dirty,
    {
        self.dirty
    }

    /// Whether the text has the keyboard focus.
    pub fn focused(&self) -> (f: bool)
        ensures
            f == self@.focused,
    {
        self.focused
    }

    /// The cursor position, in bytes.
    pub fn cursor_pos(&self) -> (p: usize)
        ensures
            p == self@.cursor_pos,
    {
        self.cursor_pos
    }

    /// The text.
    pub fn text(&self) -> (s: String)
        ensures
            utf8_bytes(s) == self@.bytes,
    {
        self.text.clone()
    }

    /// Replaces the text, with the cursor at its end.
    pub fn set_text(&mut self, text: &str)
        ensures
            final(self)@ == (EditableTextModel {
                bytes: encode_utf8(text@),
                cursor_pos: encode_utf8(text@).len(),
                focused: old(self)@.focused,
                dirty: true,
            }),
            final(self).spec_index() == old(self).spec_index(),
    {
        self.text = String::from_str(text);
        self.cursor_pos = string_len(&self.text);
        self.dirty = true;
    }

    /// Gives or takes the keyboard focus.
    pub fn set_focused(&mut self, focused: bool)
        ensures
            final(self)@ == (EditableTextModel { focused, dirty: true, ..old(self)@ }),
            final(self).spec_index() == old(self).spec_index(),
    {
        self.focused = focused;
        self.dirty = true;
    }

    /// Moves the cursor; a count of a `Number` quantity moves that many
    /// bytes. Returns whether the motion is handled.
    pub fn move_cursor(&mut self, motion: Motion, quantity: Option<Quantity>) -> (handled: bool)
        requires
            motion_fits(old(self)@.cursor_pos, motion, quantity),
        ensures
            handled == moved_cursor(old(self)@.cursor_pos, old(self)@.bytes.len(), motion, quantity) is Some,
            final(self)@ == (match moved_cursor(old(self)@.cursor_pos, old(self)@.bytes.len(), motion, quantity) {
                Some(c) => EditableTextModel { cursor_pos: c, ..old(self)@ },
                None => old(self)@,
            }),
            final(self).spec_index() == old(self).spec_index(),
    {
        let n = match quantity {
            Some(Quantity::Number(c)) => c,
            Some(_) => 1,
            None => 1,
        };
        let len = string_len(&self.text);
        match motion {
            Motion::Left => {
                if self.cursor_pos > n {
                    self.cursor_pos -= n;
                } else {
                    self.cursor_pos = 0;
                }
            },
            Motion::Right => {
                if self.cursor_pos + n < len {
                    self.cursor_pos += n;
                } else {
                    self.cursor_pos = len;
                }
            },
            Motion::First => self.cursor_pos = 0,
            Motion::Last => self.cursor_pos = len,
            _ => return false,
        }
        true
    }

    /// Types a character at the cursor, as `typed` says.
    pub fn handle_char(&mut self, ch: char) -> (handled: bool)
        requires
            typing_ok(old(self)@),
        ensures
            handled,
            final(self)@ == typed(old(self)@, ch),
            final(self).spec_index() == old(self).spec_index(),
    {
        if self.cursor_pos <= string_len(&self.text) {
            string_insert(&mut self.text, self.cursor_pos, ch);
            self.move_cursor(Motion::Right, Some(Quantity::Number(1)));
        }
        true
    }

    /// Deletes as `deleted` says; returns whether the delete is handled.
    pub fn handle_delete(&mut self, motion: Motion, quantity: Option<Quantity>) -> (handled: bool)
        requires
            delete_ok(old(self)@, motion, quantity),
        ensures
            (handled, final(self)@) == deleted(old(self)@, motion, quantity),
            final(self).spec_index() == old(self).spec_index(),
    {
        let q = match quantity {
            Some(q) => q,
            None => Quantity::default(),
        };
        match q {
            Quantity::All | Quantity::Line(_) => {
                self.text = String::new();
            },
            Quantity::Number(n) => {
                let text_len = string_len(&self.text);
                match motion {
                    Motion::Left => {
                        if text_len > n && self.cursor_pos > 0 && self.cursor_pos + n - 1 <= text_len {
                            string_remove(&mut self.text, self.cursor_pos - n);
                            self.move_cursor(Motion::Left, None);
                        } else if text_len == 1 {
                            self.text = String::new();
                            self.move_cursor(Motion::Left, None);
                        }
                    },
                    Motion::Right => {
                        if self.cursor_pos + n < text_len {
                            string_remove(&mut self.text, self.cursor_pos + n);
                        }
                    },
                    _ => return false,
                }
            },
            _ => return false,
        };
        true
    }

    /// Applies an action: deletes, motions and typed characters are
    /// handled as `poked` says; other actions are not handled. The text is
    /// marked for drawing either way.
    pub fn poke(&mut self, action: Action) -> (handled: bool)
        requires
            poke_ok(old(self)@, action),
        ensures
            (handled, final(self)@) == poked(old(self)@, action),
            final(self).spec_index() == old(self).spec_index(),
    {
        self.dirty = true;
        match action {
            Action::Delete((motion, quantity)) => self.handle_delete(motion, quantity),
            Action::Motion((motion, quantity)) => self.move_cursor(motion, quantity),
            Action::InsertChar(ch) => self.handle_char(ch),
            _ => false,
        }
    }
}

/// What an action does to an editable text, and whether it is handled.
pub open spec fn poked(m: EditableTextModel, action: Action) -> (bool, EditableTextModel) {
    let m = EditableTextModel { dirty: true, ..m };
    match action {
        Action::Delete((motion, quantity)) => deleted(m, motion, quantity),
        Action::Motion((motion, quantity)) => match moved_cursor(m.cursor_pos, m.bytes.len(), motion, quantity) {
            Some(c) => (true, EditableTextModel { cursor_pos: c, ..m }),
            None => (false, m),
        },
        Action::InsertChar(ch) => (true, typed(m, ch)),
        _ => (false, m),
    }
}

/// An action can be applied without a panic.
pub open spec fn poke_ok(m: EditableTextModel, action: Action) -> bool {
    match action {
        Action::Delete((motion, quantity)) => delete_ok(m, motion, quantity),
        Action::Motion((motion, quantity)) => motion_fits(m.cursor_pos, motion, quantity),
        Action::InsertChar(_) => typing_ok(m),
        _ => true,
    }
}

/// Typing an ASCII character and deleting backward by one gives back the
/// text and the cursor.
pub proof fn law_type_then_delete_restores(m: EditableTextModel, ch: char)
    requires
        is_ascii_chars(seq![ch]),
        m.cursor_pos <= m.bytes.len(),
    ensures
        deleted(typed(m, ch), Motion::Left, Some(Quantity::Number(1))) == (true, m),
{
    let cp = m.cursor_pos as int;
    is_ascii_chars_encode_utf8(seq![ch]);
    let e = encode_utf8(seq![ch]);
    assert(e.len() == 1);
    let t = typed(m, ch);
    assert(t.cursor_pos == cp + 1);
    let bytes = inserted_at(m.bytes, cp, ch);
    if m.bytes.len() >= 1 {
        assert(bytes.skip(cp) =~= e + m.bytes.skip(cp));
        assert(bytes.skip(cp)[0] == e[0]);
        assert((ch as u8) < 0x80) by {
            assert('\0' <= seq![ch][0] <= '\u{7f}');
        }
        assert(pop_first_scalar(bytes.skip(cp)) =~= m.bytes.skip(cp));
        assert(bytes.take(cp) =~= m.bytes.take(cp));
        assert(removed_at(bytes, cp) =~= m.bytes);
    } else {
        assert(m.bytes =~= Seq::<u8>::empty());
    }
}

} // verus!

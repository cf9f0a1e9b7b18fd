//! Bindings of keys and mouse buttons to actions of the editing core.

use vstd::prelude::*;

use crate::actions::Action;
use crate::kinds::Mode;

use super::keys::{Key, ModifiersState, MouseButton};

verus! {

/// Something a binding can be triggered by, compared by value.
pub trait Trigger: Sized {
    fn same(&self, other: &Self) -> (b: bool)
        ensures
            b == (*self == *other),
    ;
}

impl Trigger for Key {
    fn same(&self, other: &Self) -> (b: bool) {
        *self == *other
    }
}

impl Trigger for MouseButton {
    fn same(&self, other: &Self) -> (b: bool) {
        *self == *other
    }
}

/// A binding of a trigger, with modifiers, in a mode, to actions.
pub struct Binding<T> {
    mods: ModifiersState,
    mode: Mode,
    notmode: Mode,
    trigger: T,
    pub actions: Vec<Action>,
}

pub type KeyBinding = Binding<Key>;

pub type MouseBinding = Binding<MouseButton>;

/// Whether a binding fires: on its trigger with exactly its modifiers, in
/// its mode (any, when `NoMode`) and not in its excluded mode (none, when
/// `NoMode`).
pub open spec fn triggers<T>(b: Binding<T>, mode: Mode, mods: ModifiersState, input: T) -> bool {
    b.trigger_spec() == input && b.mods_spec() == mods && (b.mode_spec() == Mode::NoMode || b.mode_spec()
        == mode) && (b.notmode_spec() == Mode::NoMode || b.notmode_spec() != mode)
}

impl<T> Binding<T> {
    pub closed spec fn trigger_spec(self) -> T {
        self.trigger
    }

    pub closed spec fn mods_spec(self) -> ModifiersState {
        self.mods
    }

    pub closed spec fn mode_spec(self) -> Mode {
        self.mode
    }

    pub closed spec fn notmode_spec(self) -> Mode {
        self.notmode
    }

    pub closed spec fn actions_spec(self) -> Seq<Action> {
        self.actions@
    }
}

impl<T: Trigger> Binding<T> {
    /// A binding of `trigger` with `mods` in `mode` (any, when `NoMode`),
    /// except in `notmode` (none, when `NoMode`), to `actions`.
    pub fn new(trigger: T, mods: ModifiersState, mode: Mode, notmode: Mode, actions: Vec<Action>) -> (b: Self)
        ensures
            b.trigger_spec() == trigger,
            b.mods_spec() == mods,
            b.mode_spec() == mode,
            b.notmode_spec() == notmode,
            b.actions_spec() == actions@,
    {
        Binding { mods, mode, notmode, trigger, actions }
    }

    /// Whether the binding fires on `input` with `mods` held in `mode`.
    pub fn is_triggered_by(&self, mode: Mode, mods: ModifiersState, input: &T) -> (b: bool)
        ensures
            b == triggers(*self, mode, mods, *input),
    {
        self.trigger.same(input) && self.mods == mods && (self.mode == Mode::NoMode || self.mode == mode)
            && (self.notmode == Mode::NoMode || self.notmode != mode)
    }
}

/// The first binding, in order, that `input` fires with `mods` held in
/// `mode`, as a key press picks the binding it acts on; `None` when none
/// fires.
pub fn select_binding<T: Trigger>(bindings: &Vec<Binding<T>>, mode: Mode, mods: ModifiersState, input: &T) -> (r: Option<usize>)
    ensures
        match r {
            Some(i) => i < bindings@.len() && triggers(bindings@[i as int], mode, mods, *input) && forall|j: int|
                0 <= j < i ==> !triggers(#[trigger] bindings@[j], mode, mods, *input),
            None => forall|j: int| 0 <= j < bindings@.len() ==> !triggers(#[trigger] bindings@[j], mode, mods, *input),
        },
{
    let mut i: usize = 0;
    while i < bindings.len()
        invariant
            i <= bindings@.len(),
            forall|j: int| 0 <= j < i ==> !triggers(#[trigger] bindings@[j], mode, mods, *input),
        decreases bindings.len() - i,
    {
        if bindings[i].is_triggered_by(mode, mods, input) {
            return Some(i);
        }
        i += 1;
    }
    None
}

/// The actions of the bindings that fire, in the order of the bindings.
pub open spec fn fired_actions<T>(bindings: Seq<Binding<T>>, mode: Mode, mods: ModifiersState, input: T) -> Seq<Action>
    decreases bindings.len(),
{
    if bindings.len() == 0 {
        Seq::empty()
    } else {
        let before = fired_actions(bindings.drop_last(), mode, mods, input);
        if triggers(bindings.last(), mode, mods, input) {
            before + bindings.last().actions_spec()
        } else {
            before
        }
    }
}

/// The actions of all bindings that `input` fires with `mods` held in
/// `mode`, in order.
pub fn triggered_actions<T: Trigger>(bindings: &Vec<Binding<T>>, mode: Mode, mods: ModifiersState, input: &T) -> (r: Vec<Action>)
    ensures
        r@ == fired_actions(bindings@, mode, mods, *input),
{
    let mut out: Vec<Action> = Vec::new();
    let mut i: usize = 0;
    while i < bindings.len()
        invariant
            i <= bindings@.len(),
            out@ == fired_actions(bindings@.take(i as int), mode, mods, *input),
        decreases bindings.len() - i,
    {
        proof {
            assert(bindings@.take(i + 1).drop_last() =~= bindings@.take(i as int));
        }
        let b = &bindings[i];
        if b.is_triggered_by(mode, mods, input) {
            let ghost before = out@;
            let mut j: usize = 0;
            while j < b.actions.len()
                invariant
                    j <= b.actions@.len(),
                    out@ == before + b.actions@.take(j as int),
                decreases b.actions.len() - j,
            {
                out.push(b.actions[j].clone());
                proof {
                    assert(b.actions@.take(j + 1) =~= b.actions@.take(j as int).push(b.actions@[j as int]));
                }
                j += 1;
            }
            proof {
                assert(b.actions@.take(j as int) =~= b.actions@);
            }
        }
        i += 1;
    }
    proof {
        assert(bindings@.take(i as int) =~= bindings@);
    }
    out
}

/// The actions that the pressed key and the pressed mouse button fire in
/// `mode`: those of the key bindings, then those of the mouse bindings.
pub fn acquire_input_actions(
    key_bindings: &Vec<KeyBinding>,
    mouse_bindings: &Vec<MouseBinding>,
    mode: Mode,
    mods: ModifiersState,
    key: Option<Key>,
    button: Option<MouseButton>,
) -> (r: Vec<Action>)
    ensures
        r@ == (match key {
            Some(k) => fired_actions(key_bindings@, mode, mods, k),
            None => Seq::empty(),
        }) + (match button {
            Some(b) => fired_actions(mouse_bindings@, mode, mods, b),
            None => Seq::empty(),
        }),
{
    let mut actions: Vec<Action> = Vec::new();
    if let Some(pressed_key) = key {
        let mut key_triggers = triggered_actions(key_bindings, mode, mods, &pressed_key);
        actions.append(&mut key_triggers);
    }
    if let Some(mouse_button) = button {
        let mut mouse_triggers = triggered_actions(mouse_bindings, mode, mods, &mouse_button);
        actions.append(&mut mouse_triggers);
    }
    actions
}

} // verus!

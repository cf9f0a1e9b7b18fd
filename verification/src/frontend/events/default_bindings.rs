//! The key bindings the editor starts with.

use vstd::prelude::*;

use crate::actions::Action;
use crate::kinds::{Mode, Motion, Quantity};

use super::binding::{fired_actions, triggers, Binding, KeyBinding};
use super::keys::{Key, KeyCode, ModifiersState};

verus! {

/// An action of a binding as the table gives it: a plain action, the
/// typing of a text, or the choice of a theme by its name.
pub ghost enum ActionSpec {
    Act(Action),
    Text(Seq<char>),
    Theme(Seq<char>),
}

/// A binding as the table gives it: a key, the modifier bits, the mode and
/// the excluded mode, and the actions.
pub ghost struct BindingSpec {
    pub key: KeyCode,
    pub mods: u32,
    pub mode: Mode,
    pub notmode: Mode,
    pub actions: Seq<ActionSpec>,
}

/// Whether an action is the one the table gives.
pub open spec fn action_fits(a: Action, s: ActionSpec) -> bool {
    match s {
        ActionSpec::Act(b) => a == b,
        ActionSpec::Text(t) => a matches Action::InsertChars(x) && x@ == t,
        ActionSpec::Theme(t) => a matches Action::SetTheme { theme_name } && theme_name@ == t,
    }
}

/// Whether a binding is the one the table gives.
pub open spec fn binding_fits(b: KeyBinding, s: BindingSpec) -> bool {
    &&& b.trigger_spec() == Key::KeyCode(s.key)
    &&& b.mods_spec().bits == s.mods
    &&& b.mode_spec() == s.mode
    &&& b.notmode_spec() == s.notmode
    &&& b.actions_spec().len() == s.actions.len()
    &&& forall|i: int| 0 <= i < s.actions.len() ==> action_fits(#[trigger] b.actions_spec()[i], s.actions[i])
}

/// Whether the bindings from `start` on are those the table gives.
pub open spec fn bindings_fit(v: Seq<KeyBinding>, start: int, s: Seq<BindingSpec>) -> bool {
    &&& 0 <= start
    &&& v.len() == start + s.len()
    &&& forall|i: int| 0 <= i < s.len() ==> binding_fits(#[trigger] v[start + i], s[i])
}

proof fn lemma_fit_append(old_v: Seq<KeyBinding>, new_v: Seq<KeyBinding>, a: Seq<BindingSpec>, b: Seq<BindingSpec>)
    requires
        bindings_fit(old_v, 0, a),
        bindings_fit(new_v, old_v.len() as int, b),
        new_v.subrange(0, old_v.len() as int) == old_v,
    ensures
        bindings_fit(new_v, 0, a + b),
{
    assert forall|i: int| 0 <= i < (a + b).len() implies binding_fits(#[trigger] new_v[0 + i], (a + b)[i]) by {
        if i < a.len() {
            assert(new_v[i] == new_v.subrange(0, old_v.len() as int)[i]);
            assert(old_v[0 + i] == old_v[i]);
        } else {
            assert(new_v[old_v.len() + (i - a.len())] == new_v[i]);
        }
    }
}

fn text(s: &str) -> (a: Action)
    ensures
        a matches Action::InsertChars(x) && x@ == s@,
{
    Action::InsertChars(String::from_str(s))
}

fn theme(s: &str) -> (a: Action)
    ensures
        a matches Action::SetTheme { theme_name } && theme_name@ == s@,
{
    Action::SetTheme { theme_name: String::from_str(s) }
}

fn bind(key: KeyCode, mods: u32, mode: Mode, notmode: Mode, actions: Vec<Action>) -> (b: KeyBinding)
    ensures
        b.trigger_spec() == Key::KeyCode(key),
        b.mods_spec().bits == mods,
        b.mode_spec() == mode,
        b.notmode_spec() == notmode,
        b.actions_spec() == actions@,
{
    Binding::new(Key::KeyCode(key), ModifiersState { bits: mods }, mode, notmode, actions)
}

/// Part 0 of the default key bindings.
pub open spec fn default_bindings_part_0() -> Seq<BindingSpec> {
    seq![
        BindingSpec { key: KeyCode::Escape, mods: 0, mode: Mode::Visual, notmode: Mode::NoMode, actions: seq![ActionSpec::Act(Action::CollapseSelections)] },
        BindingSpec { key: KeyCode::Escape, mods: 0, mode: Mode::NoMode, notmode: Mode::Normal, actions: seq![ActionSpec::Act(Action::SetMode(Mode::Normal))] },
        BindingSpec { key: KeyCode::I, mods: 0, mode: Mode::Normal, notmode: Mode::NoMode, actions: seq![ActionSpec::Act(Action::SetMode(Mode::Insert))] },
        BindingSpec { key: KeyCode::V, mods: 0, mode: Mode::Normal, notmode: Mode::NoMode, actions: seq![ActionSpec::Act(Action::SetMode(Mode::Visual))] },
        BindingSpec { key: KeyCode::V, mods: 4, mode: Mode::Normal, notmode: Mode::NoMode, actions: seq![ActionSpec::Act(Action::Move(Motion::Begin, Quantity::Line)), ActionSpec::Act(Action::MoveSelection(Motion::End, Quantity::Line)), ActionSpec::Act(Action::SetMode(Mode::Visual))] },
        BindingSpec { key: KeyCode::V, mods: 32, mode: Mode::Normal, notmode: Mode::NoMode, actions: seq![ActionSpec::Act(Action::SetMode(Mode::Visual))] },
        BindingSpec { key: KeyCode::A, mods: 0, mode: Mode::Normal, notmode: Mode::NoMode, actions: seq![ActionSpec::Act(Action::Move(Motion::Forward, Quantity::Character)), ActionSpec::Act(Action::SetMode(Mode::Insert))] },
        BindingSpec { key: KeyCode::A, mods: 4, mode: Mode::Normal, notmode: Mode::NoMode, actions: seq![ActionSpec::Act(Action::Move(Motion::End, Quantity::Line)), ActionSpec::Act(Action::SetMode(Mode::Insert))] },
        BindingSpec { key: KeyCode::S, mods: 0, mode: Mode::Normal, notmode: Mode::NoMode, actions: seq![ActionSpec::Act(Action::Delete(Motion::Forward, Quantity::Character)), ActionSpec::Act(Action::SetMode(Mode::Insert))] },
        BindingSpec { key: KeyCode::S, mods: 4, mode: Mode::Normal, notmode: Mode::NoMode, actions: seq![ActionSpec::Act(Action::Move(Motion::Begin, Quantity::Line)), ActionSpec::Act(Action::MoveSelection(Motion::Last, Quantity::Line)), ActionSpec::Act(Action::Delete(Motion::Forward, Quantity::Selection)), ActionSpec::Act(Action::SetMode(Mode::Insert))] },
        BindingSpec { key: KeyCode::O, mods: 0, mode: Mode::Normal, notmode: Mode::NoMode, actions: seq![ActionSpec::Act(Action::Move(Motion::End, Quantity::Line)), ActionSpec::Act(Action::InsertNewline), ActionSpec::Act(Action::SetMode(Mode::Insert))] },
        BindingSpec { key: KeyCode::O, mods: 4, mode: Mode::Normal, notmode: Mode::NoMode, actions: seq![ActionSpec::Act(Action::Move(Motion::Above, Quantity::Character)), ActionSpec::Act(Action::Move(Motion::End, Quantity::Line)), ActionSpec::Act(Action::InsertNewline), ActionSpec::Act(Action::SetMode(Mode::Insert))] },
    ]
}

fn default_bindings_part_0_exec(v: &mut Vec<KeyBinding>)
    ensures
        bindings_fit(final(v)@, old(v)@.len() as int, default_bindings_part_0()),
        final(v)@.subrange(0, old(v)@.len() as int) == old(v)@,
{
    let ghost start = v@.len();
    v.push(bind(KeyCode::Escape, 0, Mode::Visual, Mode::NoMode, vec![Action::CollapseSelections]));
    v.push(bind(KeyCode::Escape, 0, Mode::NoMode, Mode::Normal, vec![Action::SetMode(Mode::Normal)]));
    v.push(bind(KeyCode::I, 0, Mode::Normal, Mode::NoMode, vec![Action::SetMode(Mode::Insert)]));
    v.push(bind(KeyCode::V, 0, Mode::Normal, Mode::NoMode, vec![Action::SetMode(Mode::Visual)]));
    v.push(bind(KeyCode::V, 4, Mode::Normal, Mode::NoMode, vec![Action::Move(Motion::Begin, Quantity::Line), Action::MoveSelection(Motion::End, Quantity::Line), Action::SetMode(Mode::Visual)]));
    v.push(bind(KeyCode::V, 32, Mode::Normal, Mode::NoMode, vec![Action::SetMode(Mode::Visual)]));
    v.push(bind(KeyCode::A, 0, Mode::Normal, Mode::NoMode, vec![Action::Move(Motion::Forward, Quantity::Character), Action::SetMode(Mode::Insert)]));
    v.push(bind(KeyCode::A, 4, Mode::Normal, Mode::NoMode, vec![Action::Move(Motion::End, Quantity::Line), Action::SetMode(Mode::Insert)]));
    v.push(bind(KeyCode::S, 0, Mode::Normal, Mode::NoMode, vec![Action::Delete(Motion::Forward, Quantity::Character), Action::SetMode(Mode::Insert)]));
    v.push(bind(KeyCode::S, 4, Mode::Normal, Mode::NoMode, vec![Action::Move(Motion::Begin, Quantity::Line), Action::MoveSelection(Motion::Last, Quantity::Line), Action::Delete(Motion::Forward, Quantity::Selection), Action::SetMode(Mode::Insert)]));
    v.push(bind(KeyCode::O, 0, Mode::Normal, Mode::NoMode, vec![Action::Move(Motion::End, Quantity::Line), Action::InsertNewline, Action::SetMode(Mode::Insert)]));
    v.push(bind(KeyCode::O, 4, Mode::Normal, Mode::NoMode, vec![Action::Move(Motion::Above, Quantity::Character), Action::Move(Motion::End, Quantity::Line), Action::InsertNewline, Action::SetMode(Mode::Insert)]));
    proof {
        let s = default_bindings_part_0();
        assert(v@.len() == start + s.len());
        assert forall|i: int| 0 <= i < s.len() implies binding_fits(#[trigger] v@[start + i], s[i]) by {}
    }
}

/// Part 1 of the default key bindings.
pub open spec fn default_bindings_part_1() -> Seq<BindingSpec> {
    seq![
        BindingSpec { key: KeyCode::D, mods: 0, mode: Mode::Normal, notmode: Mode::NoMode, actions: seq![ActionSpec::Act(Action::SetMode(Mode::Delete))] },
        BindingSpec { key: KeyCode::Colon, mods: 0, mode: Mode::Normal, notmode: Mode::NoMode, actions: seq![ActionSpec::Act(Action::SetMode(Mode::Command))] },
        BindingSpec { key: KeyCode::Back, mods: 0, mode: Mode::Insert, notmode: Mode::NoMode, actions: seq![ActionSpec::Act(Action::Delete(Motion::Backward, Quantity::Character))] },
        BindingSpec { key: KeyCode::Delete, mods: 0, mode: Mode::Insert, notmode: Mode::NoMode, actions: seq![ActionSpec::Act(Action::Delete(Motion::Forward, Quantity::Character))] },
        BindingSpec { key: KeyCode::Delete, mods: 0, mode: Mode::Normal, notmode: Mode::NoMode, actions: seq![ActionSpec::Act(Action::Delete(Motion::Forward, Quantity::Character))] },
        BindingSpec { key: KeyCode::Space, mods: 0, mode: Mode::Insert, notmode: Mode::NoMode, actions: seq![ActionSpec::Text(" "@)] },
        BindingSpec { key: KeyCode::Space, mods: 0, mode: Mode::Normal, notmode: Mode::NoMode, actions: seq![ActionSpec::Act(Action::Move(Motion::Forward, Quantity::Character))] },
        BindingSpec { key: KeyCode::Return, mods: 0, mode: Mode::Insert, notmode: Mode::NoMode, actions: seq![ActionSpec::Act(Action::InsertNewline)] },
        BindingSpec { key: KeyCode::Tab, mods: 0, mode: Mode::Insert, notmode: Mode::NoMode, actions: seq![ActionSpec::Act(Action::InsertTab)] },
        BindingSpec { key: KeyCode::Up, mods: 0, mode: Mode::Normal, notmode: Mode::NoMode, actions: seq![ActionSpec::Act(Action::Move(Motion::Above, Quantity::Character))] },
        BindingSpec { key: KeyCode::Down, mods: 0, mode: Mode::Normal, notmode: Mode::NoMode, actions: seq![ActionSpec::Act(Action::Move(Motion::Below, Quantity::Character))] },
        BindingSpec { key: KeyCode::Left, mods: 0, mode: Mode::Normal, notmode: Mode::NoMode, actions: seq![ActionSpec::Act(Action::Move(Motion::Backward, Quantity::Character))] },
    ]
}

fn default_bindings_part_1_exec(v: &mut Vec<KeyBinding>)
    ensures
        bindings_fit(final(v)@, old(v)@.len() as int, default_bindings_part_1()),
        final(v)@.subrange(0, old(v)@.len() as int) == old(v)@,
{
    let ghost start = v@.len();
    v.push(bind(KeyCode::D, 0, Mode::Normal, Mode::NoMode, vec![Action::SetMode(Mode::Delete)]));
    v.push(bind(KeyCode::Colon, 0, Mode::Normal, Mode::NoMode, vec![Action::SetMode(Mode::Command)]));
    v.push(bind(KeyCode::Back, 0, Mode::Insert, Mode::NoMode, vec![Action::Delete(Motion::Backward, Quantity::Character)]));
    v.push(bind(KeyCode::Delete, 0, Mode::Insert, Mode::NoMode, vec![Action::Delete(Motion::Forward, Quantity::Character)]));
    v.push(bind(KeyCode::Delete, 0, Mode::Normal, Mode::NoMode, vec![Action::Delete(Motion::Forward, Quantity::Character)]));
    v.push(bind(KeyCode::Space, 0, Mode::Insert, Mode::NoMode, vec![text(" ")]));
    v.push(bind(KeyCode::Space, 0, Mode::Normal, Mode::NoMode, vec![Action::Move(Motion::Forward, Quantity::Character)]));
    v.push(bind(KeyCode::Return, 0, Mode::Insert, Mode::NoMode, vec![Action::InsertNewline]));
    v.push(bind(KeyCode::Tab, 0, Mode::Insert, Mode::NoMode, vec![Action::InsertTab]));
    v.push(bind(KeyCode::Up, 0, Mode::Normal, Mode::NoMode, vec![Action::Move(Motion::Above, Quantity::Character)]));
    v.push(bind(KeyCode::Down, 0, Mode::Normal, Mode::NoMode, vec![Action::Move(Motion::Below, Quantity::Character)]));
    v.push(bind(KeyCode::Left, 0, Mode::Normal, Mode::NoMode, vec![Action::Move(Motion::Backward, Quantity::Character)]));
    proof {
        let s = default_bindings_part_1();
        assert(v@.len() == start + s.len());
        assert forall|i: int| 0 <= i < s.len() implies binding_fits(#[trigger] v@[start + i], s[i]) by {}
    }
}

/// Part 2 of the default key bindings.
pub open spec fn default_bindings_part_2() -> Seq<BindingSpec> {
    seq![
        BindingSpec { key: KeyCode::Right, mods: 0, mode: Mode::Normal, notmode: Mode::NoMode, actions: seq![ActionSpec::Act(Action::Move(Motion::Forward, Quantity::Character))] },
        BindingSpec { key: KeyCode::Up, mods: 0, mode: Mode::Insert, notmode: Mode::NoMode, actions: seq![ActionSpec::Act(Action::Move(Motion::Above, Quantity::Character))] },
        BindingSpec { key: KeyCode::Down, mods: 0, mode: Mode::Insert, notmode: Mode::NoMode, actions: seq![ActionSpec::Act(Action::Move(Motion::Below, Quantity::Character))] },
        BindingSpec { key: KeyCode::Left, mods: 0, mode: Mode::Insert, notmode: Mode::NoMode, actions: seq![ActionSpec::Act(Action::Move(Motion::Backward, Quantity::Character))] },
        BindingSpec { key: KeyCode::Right, mods: 0, mode: Mode::Insert, notmode: Mode::NoMode, actions: seq![ActionSpec::Act(Action::Move(Motion::Forward, Quantity::Character))] },
        BindingSpec { key: KeyCode::Up, mods: 32, mode: Mode::Normal, notmode: Mode::NoMode, actions: seq![ActionSpec::Act(Action::Move(Motion::Above, Quantity::Word))] },
        BindingSpec { key: KeyCode::Down, mods: 32, mode: Mode::Normal, notmode: Mode::NoMode, actions: seq![ActionSpec::Act(Action::Move(Motion::Below, Quantity::Word))] },
        BindingSpec { key: KeyCode::Left, mods: 32, mode: Mode::Normal, notmode: Mode::NoMode, actions: seq![ActionSpec::Act(Action::Move(Motion::Backward, Quantity::Word))] },
        BindingSpec { key: KeyCode::Right, mods: 32, mode: Mode::Normal, notmode: Mode::NoMode, actions: seq![ActionSpec::Act(Action::Move(Motion::Forward, Quantity::Word))] },
        BindingSpec { key: KeyCode::W, mods: 0, mode: Mode::Normal, notmode: Mode::NoMode, actions: seq![ActionSpec::Act(Action::Move(Motion::Forward, Quantity::Word))] },
        BindingSpec { key: KeyCode::B, mods: 0, mode: Mode::Normal, notmode: Mode::NoMode, actions: seq![ActionSpec::Act(Action::Move(Motion::Backward, Quantity::Word))] },
        BindingSpec { key: KeyCode::Up, mods: 32, mode: Mode::Insert, notmode: Mode::NoMode, actions: seq![ActionSpec::Act(Action::Move(Motion::Above, Quantity::Word))] },
    ]
}

fn default_bindings_part_2_exec(v: &mut Vec<KeyBinding>)
    ensures
        bindings_fit(final(v)@, old(v)@.len() as int, default_bindings_part_2()),
        final(v)@.subrange(0, old(v)@.len() as int) == old(v)@,
{
    let ghost start = v@.len();
    v.push(bind(KeyCode::Right, 0, Mode::Normal, Mode::NoMode, vec![Action::Move(Motion::Forward, Quantity::Character)]));
    v.push(bind(KeyCode::Up, 0, Mode::Insert, Mode::NoMode, vec![Action::Move(Motion::Above, Quantity::Character)]));
    v.push(bind(KeyCode::Down, 0, Mode::Insert, Mode::NoMode, vec![Action::Move(Motion::Below, Quantity::Character)]));
    v.push(bind(KeyCode::Left, 0, Mode::Insert, Mode::NoMode, vec![Action::Move(Motion::Backward, Quantity::Character)]));
    v.push(bind(KeyCode::Right, 0, Mode::Insert, Mode::NoMode, vec![Action::Move(Motion::Forward, Quantity::Character)]));
    v.push(bind(KeyCode::Up, 32, Mode::Normal, Mode::NoMode, vec![Action::Move(Motion::Above, Quantity::Word)]));
    v.push(bind(KeyCode::Down, 32, Mode::Normal, Mode::NoMode, vec![Action::Move(Motion::Below, Quantity::Word)]));
    v.push(bind(KeyCode::Left, 32, Mode::Normal, Mode::NoMode, vec![Action::Move(Motion::Backward, Quantity::Word)]));
    v.push(bind(KeyCode::Right, 32, Mode::Normal, Mode::NoMode, vec![Action::Move(Motion::Forward, Quantity::Word)]));
    v.push(bind(KeyCode::W, 0, Mode::Normal, Mode::NoMode, vec![Action::Move(Motion::Forward, Quantity::Word)]));
    v.push(bind(KeyCode::B, 0, Mode::Normal, Mode::NoMode, vec![Action::Move(Motion::Backward, Quantity::Word)]));
    v.push(bind(KeyCode::Up, 32, Mode::Insert, Mode::NoMode, vec![Action::Move(Motion::Above, Quantity::Word)]));
    proof {
        let s = default_bindings_part_2();
        assert(v@.len() == start + s.len());
        assert forall|i: int| 0 <= i < s.len() implies binding_fits(#[trigger] v@[start + i], s[i]) by {}
    }
}

/// Part 3 of the default key bindings.
pub open spec fn default_bindings_part_3() -> Seq<BindingSpec> {
    seq![
        BindingSpec { key: KeyCode::Down, mods: 32, mode: Mode::Insert, notmode: Mode::NoMode, actions: seq![ActionSpec::Act(Action::Move(Motion::Below, Quantity::Word))] },
        BindingSpec { key: KeyCode::Left, mods: 32, mode: Mode::Insert, notmode: Mode::NoMode, actions: seq![ActionSpec::Act(Action::Move(Motion::Backward, Quantity::Word))] },
        BindingSpec { key: KeyCode::Right, mods: 32, mode: Mode::Insert, notmode: Mode::NoMode, actions: seq![ActionSpec::Act(Action::Move(Motion::Forward, Quantity::Word))] },
        BindingSpec { key: KeyCode::PageUp, mods: 0, mode: Mode::Normal, notmode: Mode::NoMode, actions: seq![ActionSpec::Act(Action::Move(Motion::Above, Quantity::Page))] },
        BindingSpec { key: KeyCode::PageDown, mods: 0, mode: Mode::Normal, notmode: Mode::NoMode, actions: seq![ActionSpec::Act(Action::Move(Motion::Below, Quantity::Page))] },
        BindingSpec { key: KeyCode::Home, mods: 0, mode: Mode::Normal, notmode: Mode::NoMode, actions: seq![ActionSpec::Act(Action::Move(Motion::First, Quantity::Line))] },
        BindingSpec { key: KeyCode::End, mods: 0, mode: Mode::Normal, notmode: Mode::NoMode, actions: seq![ActionSpec::Act(Action::Move(Motion::Last, Quantity::Line))] },
        BindingSpec { key: KeyCode::PageUp, mods: 0, mode: Mode::Insert, notmode: Mode::NoMode, actions: seq![ActionSpec::Act(Action::Move(Motion::Above, Quantity::Page))] },
        BindingSpec { key: KeyCode::PageDown, mods: 0, mode: Mode::Insert, notmode: Mode::NoMode, actions: seq![ActionSpec::Act(Action::Move(Motion::Below, Quantity::Page))] },
        BindingSpec { key: KeyCode::Home, mods: 0, mode: Mode::Insert, notmode: Mode::NoMode, actions: seq![ActionSpec::Act(Action::Move(Motion::First, Quantity::Line))] },
        BindingSpec { key: KeyCode::End, mods: 0, mode: Mode::Insert, notmode: Mode::NoMode, actions: seq![ActionSpec::Act(Action::Move(Motion::Last, Quantity::Line))] },
        BindingSpec { key: KeyCode::G, mods: 4, mode: Mode::Normal, notmode: Mode::NoMode, actions: seq![ActionSpec::Act(Action::Move(Motion::Last, Quantity::Line))] },
    ]
}

fn default_bindings_part_3_exec(v: &mut Vec<KeyBinding>)
    ensures
        bindings_fit(final(v)@, old(v)@.len() as int, default_bindings_part_3()),
        final(v)@.subrange(0, old(v)@.len() as int) == old(v)@,
{
    let ghost start = v@.len();
    v.push(bind(KeyCode::Down, 32, Mode::Insert, Mode::NoMode, vec![Action::Move(Motion::Below, Quantity::Word)]));
    v.push(bind(KeyCode::Left, 32, Mode::Insert, Mode::NoMode, vec![Action::Move(Motion::Backward, Quantity::Word)]));
    v.push(bind(KeyCode::Right, 32, Mode::Insert, Mode::NoMode, vec![Action::Move(Motion::Forward, Quantity::Word)]));
    v.push(bind(KeyCode::PageUp, 0, Mode::Normal, Mode::NoMode, vec![Action::Move(Motion::Above, Quantity::Page)]));
    v.push(bind(KeyCode::PageDown, 0, Mode::Normal, Mode::NoMode, vec![Action::Move(Motion::Below, Quantity::Page)]));
    v.push(bind(KeyCode::Home, 0, Mode::Normal, Mode::NoMode, vec![Action::Move(Motion::First, Quantity::Line)]));
    v.push(bind(KeyCode::End, 0, Mode::Normal, Mode::NoMode, vec![Action::Move(Motion::Last, Quantity::Line)]));
    v.push(bind(KeyCode::PageUp, 0, Mode::Insert, Mode::NoMode, vec![Action::Move(Motion::Above, Quantity::Page)]));
    v.push(bind(KeyCode::PageDown, 0, Mode::Insert, Mode::NoMode, vec![Action::Move(Motion::Below, Quantity::Page)]));
    v.push(bind(KeyCode::Home, 0, Mode::Insert, Mode::NoMode, vec![Action::Move(Motion::First, Quantity::Line)]));
    v.push(bind(KeyCode::End, 0, Mode::Insert, Mode::NoMode, vec![Action::Move(Motion::Last, Quantity::Line)]));
    v.push(bind(KeyCode::G, 4, Mode::Normal, Mode::NoMode, vec![Action::Move(Motion::Last, Quantity::Line)]));
    proof {
        let s = default_bindings_part_3();
        assert(v@.len() == start + s.len());
        assert forall|i: int| 0 <= i < s.len() implies binding_fits(#[trigger] v@[start + i], s[i]) by {}
    }
}

/// Part 4 of the default key bindings.
pub open spec fn default_bindings_part_4() -> Seq<BindingSpec> {
    seq![
        BindingSpec { key: KeyCode::Left, mods: 0, mode: Mode::Delete, notmode: Mode::NoMode, actions: seq![ActionSpec::Act(Action::Delete(Motion::Backward, Quantity::Character))] },
        BindingSpec { key: KeyCode::Right, mods: 0, mode: Mode::Delete, notmode: Mode::NoMode, actions: seq![ActionSpec::Act(Action::Delete(Motion::Forward, Quantity::Character))] },
        BindingSpec { key: KeyCode::Up, mods: 0, mode: Mode::Delete, notmode: Mode::NoMode, actions: seq![ActionSpec::Act(Action::Delete(Motion::Above, Quantity::Line))] },
        BindingSpec { key: KeyCode::Down, mods: 0, mode: Mode::Delete, notmode: Mode::NoMode, actions: seq![ActionSpec::Act(Action::Delete(Motion::Below, Quantity::Line))] },
        BindingSpec { key: KeyCode::D, mods: 0, mode: Mode::Delete, notmode: Mode::NoMode, actions: seq![ActionSpec::Act(Action::Move(Motion::First, Quantity::Line)), ActionSpec::Act(Action::Delete(Motion::Forward, Quantity::Line))] },
        BindingSpec { key: KeyCode::Left, mods: 0, mode: Mode::Visual, notmode: Mode::NoMode, actions: seq![ActionSpec::Act(Action::MoveSelection(Motion::Backward, Quantity::Character))] },
        BindingSpec { key: KeyCode::Right, mods: 0, mode: Mode::Visual, notmode: Mode::NoMode, actions: seq![ActionSpec::Act(Action::MoveSelection(Motion::Forward, Quantity::Character))] },
        BindingSpec { key: KeyCode::Up, mods: 0, mode: Mode::Visual, notmode: Mode::NoMode, actions: seq![ActionSpec::Act(Action::MoveSelection(Motion::Above, Quantity::Character))] },
        BindingSpec { key: KeyCode::Down, mods: 0, mode: Mode::Visual, notmode: Mode::NoMode, actions: seq![ActionSpec::Act(Action::MoveSelection(Motion::Below, Quantity::Character))] },
        BindingSpec { key: KeyCode::Left, mods: 32, mode: Mode::Visual, notmode: Mode::NoMode, actions: seq![ActionSpec::Act(Action::MoveSelection(Motion::Backward, Quantity::Word))] },
        BindingSpec { key: KeyCode::Right, mods: 32, mode: Mode::Visual, notmode: Mode::NoMode, actions: seq![ActionSpec::Act(Action::MoveSelection(Motion::Forward, Quantity::Word))] },
        BindingSpec { key: KeyCode::Up, mods: 32, mode: Mode::Visual, notmode: Mode::NoMode, actions: seq![ActionSpec::Act(Action::MoveSelection(Motion::Above, Quantity::Word))] },
    ]
}

fn default_bindings_part_4_exec(v: &mut Vec<KeyBinding>)
    ensures
        bindings_fit(final(v)@, old(v)@.len() as int, default_bindings_part_4()),
        final(v)@.subrange(0, old(v)@.len() as int) == old(v)@,
{
    let ghost start = v@.len();
    v.push(bind(KeyCode::Left, 0, Mode::Delete, Mode::NoMode, vec![Action::Delete(Motion::Backward, Quantity::Character)]));
    v.push(bind(KeyCode::Right, 0, Mode::Delete, Mode::NoMode, vec![Action::Delete(Motion::Forward, Quantity::Character)]));
    v.push(bind(KeyCode::Up, 0, Mode::Delete, Mode::NoMode, vec![Action::Delete(Motion::Above, Quantity::Line)]));
    v.push(bind(KeyCode::Down, 0, Mode::Delete, Mode::NoMode, vec![Action::Delete(Motion::Below, Quantity::Line)]));
    v.push(bind(KeyCode::D, 0, Mode::Delete, Mode::NoMode, vec![Action::Move(Motion::First, Quantity::Line), Action::Delete(Motion::Forward, Quantity::Line)]));
    v.push(bind(KeyCode::Left, 0, Mode::Visual, Mode::NoMode, vec![Action::MoveSelection(Motion::Backward, Quantity::Character)]));
    v.push(bind(KeyCode::Right, 0, Mode::Visual, Mode::NoMode, vec![Action::MoveSelection(Motion::Forward, Quantity::Character)]));
    v.push(bind(KeyCode::Up, 0, Mode::Visual, Mode::NoMode, vec![Action::MoveSelection(Motion::Above, Quantity::Character)]));
    v.push(bind(KeyCode::Down, 0, Mode::Visual, Mode::NoMode, vec![Action::MoveSelection(Motion::Below, Quantity::Character)]));
    v.push(bind(KeyCode::Left, 32, Mode::Visual, Mode::NoMode, vec![Action::MoveSelection(Motion::Backward, Quantity::Word)]));
    v.push(bind(KeyCode::Right, 32, Mode::Visual, Mode::NoMode, vec![Action::MoveSelection(Motion::Forward, Quantity::Word)]));
    v.push(bind(KeyCode::Up, 32, Mode::Visual, Mode::NoMode, vec![Action::MoveSelection(Motion::Above, Quantity::Word)]));
    proof {
        let s = default_bindings_part_4();
        assert(v@.len() == start + s.len());
        assert forall|i: int| 0 <= i < s.len() implies binding_fits(#[trigger] v@[start + i], s[i]) by {}
    }
}

/// Part 5 of the default key bindings.
pub open spec fn default_bindings_part_5() -> Seq<BindingSpec> {
    seq![
        BindingSpec { key: KeyCode::Down, mods: 32, mode: Mode::Visual, notmode: Mode::NoMode, actions: seq![ActionSpec::Act(Action::MoveSelection(Motion::Below, Quantity::Word))] },
        BindingSpec { key: KeyCode::W, mods: 0, mode: Mode::Visual, notmode: Mode::NoMode, actions: seq![ActionSpec::Act(Action::MoveSelection(Motion::Forward, Quantity::Word))] },
        BindingSpec { key: KeyCode::D, mods: 0, mode: Mode::Visual, notmode: Mode::NoMode, actions: seq![ActionSpec::Act(Action::Delete(Motion::Forward, Quantity::Selection))] },
        BindingSpec { key: KeyCode::D, mods: 4, mode: Mode::Visual, notmode: Mode::NoMode, actions: seq![ActionSpec::Act(Action::CollapseSelections), ActionSpec::Act(Action::Move(Motion::First, Quantity::Character)), ActionSpec::Act(Action::MoveSelection(Motion::Last, Quantity::Line)), ActionSpec::Act(Action::Delete(Motion::Forward, Quantity::Selection))] },
        BindingSpec { key: KeyCode::Period, mods: 0, mode: Mode::Insert, notmode: Mode::NoMode, actions: seq![ActionSpec::Text("."@)] },
        BindingSpec { key: KeyCode::Comma, mods: 0, mode: Mode::Insert, notmode: Mode::NoMode, actions: seq![ActionSpec::Text(","@)] },
        BindingSpec { key: KeyCode::Apostrophe, mods: 0, mode: Mode::Insert, notmode: Mode::NoMode, actions: seq![ActionSpec::Text("'"@)] },
        BindingSpec { key: KeyCode::Semicolon, mods: 0, mode: Mode::Insert, notmode: Mode::NoMode, actions: seq![ActionSpec::Text(";"@)] },
        BindingSpec { key: KeyCode::Slash, mods: 0, mode: Mode::Insert, notmode: Mode::NoMode, actions: seq![ActionSpec::Text("/"@)] },
        BindingSpec { key: KeyCode::Period, mods: 4, mode: Mode::Insert, notmode: Mode::NoMode, actions: seq![ActionSpec::Text(">"@)] },
        BindingSpec { key: KeyCode::Comma, mods: 4, mode: Mode::Insert, notmode: Mode::NoMode, actions: seq![ActionSpec::Text("<"@)] },
        BindingSpec { key: KeyCode::Apostrophe, mods: 4, mode: Mode::Insert, notmode: Mode::NoMode, actions: seq![ActionSpec::Text("\""@)] },
    ]
}

fn default_bindings_part_5_exec(v: &mut Vec<KeyBinding>)
    ensures
        bindings_fit(final(v)@, old(v)@.len() as int, default_bindings_part_5()),
        final(v)@.subrange(0, old(v)@.len() as int) == old(v)@,
{
    let ghost start = v@.len();
    v.push(bind(KeyCode::Down, 32, Mode::Visual, Mode::NoMode, vec![Action::MoveSelection(Motion::Below, Quantity::Word)]));
    v.push(bind(KeyCode::W, 0, Mode::Visual, Mode::NoMode, vec![Action::MoveSelection(Motion::Forward, Quantity::Word)]));
    v.push(bind(KeyCode::D, 0, Mode::Visual, Mode::NoMode, vec![Action::Delete(Motion::Forward, Quantity::Selection)]));
    v.push(bind(KeyCode::D, 4, Mode::Visual, Mode::NoMode, vec![Action::CollapseSelections, Action::Move(Motion::First, Quantity::Character), Action::MoveSelection(Motion::Last, Quantity::Line), Action::Delete(Motion::Forward, Quantity::Selection)]));
    v.push(bind(KeyCode::Period, 0, Mode::Insert, Mode::NoMode, vec![text(".")]));
    v.push(bind(KeyCode::Comma, 0, Mode::Insert, Mode::NoMode, vec![text(",")]));
    v.push(bind(KeyCode::Apostrophe, 0, Mode::Insert, Mode::NoMode, vec![text("'")]));
    v.push(bind(KeyCode::Semicolon, 0, Mode::Insert, Mode::NoMode, vec![text(";")]));
    v.push(bind(KeyCode::Slash, 0, Mode::Insert, Mode::NoMode, vec![text("/")]));
    v.push(bind(KeyCode::Period, 4, Mode::Insert, Mode::NoMode, vec![text(">")]));
    v.push(bind(KeyCode::Comma, 4, Mode::Insert, Mode::NoMode, vec![text("<")]));
    v.push(bind(KeyCode::Apostrophe, 4, Mode::Insert, Mode::NoMode, vec![text("\"")]));
    proof {
        let s = default_bindings_part_5();
        assert(v@.len() == start + s.len());
        assert forall|i: int| 0 <= i < s.len() implies binding_fits(#[trigger] v@[start + i], s[i]) by {}
    }
}

/// Part 6 of the default key bindings.
pub open spec fn default_bindings_part_6() -> Seq<BindingSpec> {
    seq![
        BindingSpec { key: KeyCode::Colon, mods: 0, mode: Mode::Insert, notmode: Mode::NoMode, actions: seq![ActionSpec::Text(":"@)] },
        BindingSpec { key: KeyCode::Semicolon, mods: 4, mode: Mode::Insert, notmode: Mode::NoMode, actions: seq![ActionSpec::Text(":"@)] },
        BindingSpec { key: KeyCode::Slash, mods: 4, mode: Mode::Insert, notmode: Mode::NoMode, actions: seq![ActionSpec::Text("?"@)] },
        BindingSpec { key: KeyCode::Backslash, mods: 4, mode: Mode::Insert, notmode: Mode::NoMode, actions: seq![ActionSpec::Text("\\"@)] },
        BindingSpec { key: KeyCode::Key0, mods: 4, mode: Mode::Insert, notmode: Mode::NoMode, actions: seq![ActionSpec::Text(")"@)] },
        BindingSpec { key: KeyCode::Key1, mods: 4, mode: Mode::Insert, notmode: Mode::NoMode, actions: seq![ActionSpec::Text("!"@)] },
        BindingSpec { key: KeyCode::Key2, mods: 4, mode: Mode::Insert, notmode: Mode::NoMode, actions: seq![ActionSpec::Text("@"@)] },
        BindingSpec { key: KeyCode::Key3, mods: 4, mode: Mode::Insert, notmode: Mode::NoMode, actions: seq![ActionSpec::Text("#"@)] },
        BindingSpec { key: KeyCode::Key4, mods: 4, mode: Mode::Insert, notmode: Mode::NoMode, actions: seq![ActionSpec::Text("$"@)] },
        BindingSpec { key: KeyCode::Key5, mods: 4, mode: Mode::Insert, notmode: Mode::NoMode, actions: seq![ActionSpec::Text("%"@)] },
        BindingSpec { key: KeyCode::Key6, mods: 4, mode: Mode::Insert, notmode: Mode::NoMode, actions: seq![ActionSpec::Text("^"@)] },
        BindingSpec { key: KeyCode::Key7, mods: 4, mode: Mode::Insert, notmode: Mode::NoMode, actions: seq![ActionSpec::Text("&"@)] },
    ]
}

fn default_bindings_part_6_exec(v: &mut Vec<KeyBinding>)
    ensures
        bindings_fit(final(v)@, old(v)@.len() as int, default_bindings_part_6()),
        final(v)@.subrange(0, old(v)@.len() as int) == old(v)@,
{
    let ghost start = v@.len();
    v.push(bind(KeyCode::Colon, 0, Mode::Insert, Mode::NoMode, vec![text(":")]));
    v.push(bind(KeyCode::Semicolon, 4, Mode::Insert, Mode::NoMode, vec![text(":")]));
    v.push(bind(KeyCode::Slash, 4, Mode::Insert, Mode::NoMode, vec![text("?")]));
    v.push(bind(KeyCode::Backslash, 4, Mode::Insert, Mode::NoMode, vec![text("\\")]));
    v.push(bind(KeyCode::Key0, 4, Mode::Insert, Mode::NoMode, vec![text(")")]));
    v.push(bind(KeyCode::Key1, 4, Mode::Insert, Mode::NoMode, vec![text("!")]));
    v.push(bind(KeyCode::Key2, 4, Mode::Insert, Mode::NoMode, vec![text("@")]));
    v.push(bind(KeyCode::Key3, 4, Mode::Insert, Mode::NoMode, vec![text("#")]));
    v.push(bind(KeyCode::Key4, 4, Mode::Insert, Mode::NoMode, vec![text("$")]));
    v.push(bind(KeyCode::Key5, 4, Mode::Insert, Mode::NoMode, vec![text("%")]));
    v.push(bind(KeyCode::Key6, 4, Mode::Insert, Mode::NoMode, vec![text("^")]));
    v.push(bind(KeyCode::Key7, 4, Mode::Insert, Mode::NoMode, vec![text("&")]));
    proof {
        let s = default_bindings_part_6();
        assert(v@.len() == start + s.len());
        assert forall|i: int| 0 <= i < s.len() implies binding_fits(#[trigger] v@[start + i], s[i]) by {}
    }
}

/// Part 7 of the default key bindings.
pub open spec fn default_bindings_part_7() -> Seq<BindingSpec> {
    seq![
        BindingSpec { key: KeyCode::Key8, mods: 4, mode: Mode::Insert, notmode: Mode::NoMode, actions: seq![ActionSpec::Text("*"@)] },
        BindingSpec { key: KeyCode::Key9, mods: 4, mode: Mode::Insert, notmode: Mode::NoMode, actions: seq![ActionSpec::Text("("@)] },
        BindingSpec { key: KeyCode::Plus, mods: 0, mode: Mode::Insert, notmode: Mode::NoMode, actions: seq![ActionSpec::Text("+"@)] },
        BindingSpec { key: KeyCode::Minus, mods: 0, mode: Mode::Insert, notmode: Mode::NoMode, actions: seq![ActionSpec::Text("-"@)] },
        BindingSpec { key: KeyCode::Equals, mods: 0, mode: Mode::Insert, notmode: Mode::NoMode, actions: seq![ActionSpec::Text("="@)] },
        BindingSpec { key: KeyCode::LBracket, mods: 4, mode: Mode::Insert, notmode: Mode::NoMode, actions: seq![ActionSpec::Text("{"@)] },
        BindingSpec { key: KeyCode::RBracket, mods: 4, mode: Mode::Insert, notmode: Mode::NoMode, actions: seq![ActionSpec::Text("}"@)] },
        BindingSpec { key: KeyCode::LBracket, mods: 0, mode: Mode::Insert, notmode: Mode::NoMode, actions: seq![ActionSpec::Text("["@)] },
        BindingSpec { key: KeyCode::RBracket, mods: 0, mode: Mode::Insert, notmode: Mode::NoMode, actions: seq![ActionSpec::Text("]"@)] },
        BindingSpec { key: KeyCode::Key0, mods: 0, mode: Mode::Insert, notmode: Mode::NoMode, actions: seq![ActionSpec::Text("0"@)] },
        BindingSpec { key: KeyCode::Key1, mods: 0, mode: Mode::Insert, notmode: Mode::NoMode, actions: seq![ActionSpec::Text("1"@)] },
        BindingSpec { key: KeyCode::Key2, mods: 0, mode: Mode::Insert, notmode: Mode::NoMode, actions: seq![ActionSpec::Text("2"@)] },
    ]
}

fn default_bindings_part_7_exec(v: &mut Vec<KeyBinding>)
    ensures
        bindings_fit(final(v)@, old(v)@.len() as int, default_bindings_part_7()),
        final(v)@.subrange(0, old(v)@.len() as int) == old(v)@,
{
    let ghost start = v@.len();
    v.push(bind(KeyCode::Key8, 4, Mode::Insert, Mode::NoMode, vec![text("*")]));
    v.push(bind(KeyCode::Key9, 4, Mode::Insert, Mode::NoMode, vec![text("(")]));
    v.push(bind(KeyCode::Plus, 0, Mode::Insert, Mode::NoMode, vec![text("+")]));
    v.push(bind(KeyCode::Minus, 0, Mode::Insert, Mode::NoMode, vec![text("-")]));
    v.push(bind(KeyCode::Equals, 0, Mode::Insert, Mode::NoMode, vec![text("=")]));
    v.push(bind(KeyCode::LBracket, 4, Mode::Insert, Mode::NoMode, vec![text("{")]));
    v.push(bind(KeyCode::RBracket, 4, Mode::Insert, Mode::NoMode, vec![text("}")]));
    v.push(bind(KeyCode::LBracket, 0, Mode::Insert, Mode::NoMode, vec![text("[")]));
    v.push(bind(KeyCode::RBracket, 0, Mode::Insert, Mode::NoMode, vec![text("]")]));
    v.push(bind(KeyCode::Key0, 0, Mode::Insert, Mode::NoMode, vec![text("0")]));
    v.push(bind(KeyCode::Key1, 0, Mode::Insert, Mode::NoMode, vec![text("1")]));
    v.push(bind(KeyCode::Key2, 0, Mode::Insert, Mode::NoMode, vec![text("2")]));
    proof {
        let s = default_bindings_part_7();
        assert(v@.len() == start + s.len());
        assert forall|i: int| 0 <= i < s.len() implies binding_fits(#[trigger] v@[start + i], s[i]) by {}
    }
}

/// Part 8 of the default key bindings.
pub open spec fn default_bindings_part_8() -> Seq<BindingSpec> {
    seq![
        BindingSpec { key: KeyCode::Key3, mods: 0, mode: Mode::Insert, notmode: Mode::NoMode, actions: seq![ActionSpec::Text("3"@)] },
        BindingSpec { key: KeyCode::Key4, mods: 0, mode: Mode::Insert, notmode: Mode::NoMode, actions: seq![ActionSpec::Text("4"@)] },
        BindingSpec { key: KeyCode::Key5, mods: 0, mode: Mode::Insert, notmode: Mode::NoMode, actions: seq![ActionSpec::Text("5"@)] },
        BindingSpec { key: KeyCode::Key6, mods: 0, mode: Mode::Insert, notmode: Mode::NoMode, actions: seq![ActionSpec::Text("6"@)] },
        BindingSpec { key: KeyCode::Key7, mods: 0, mode: Mode::Insert, notmode: Mode::NoMode, actions: seq![ActionSpec::Text("7"@)] },
        BindingSpec { key: KeyCode::Key8, mods: 0, mode: Mode::Insert, notmode: Mode::NoMode, actions: seq![ActionSpec::Text("8"@)] },
        BindingSpec { key: KeyCode::Key9, mods: 0, mode: Mode::Insert, notmode: Mode::NoMode, actions: seq![ActionSpec::Text("9"@)] },
        BindingSpec { key: KeyCode::A, mods: 0, mode: Mode::Insert, notmode: Mode::NoMode, actions: seq![ActionSpec::Text("a"@)] },
        BindingSpec { key: KeyCode::B, mods: 0, mode: Mode::Insert, notmode: Mode::NoMode, actions: seq![ActionSpec::Text("b"@)] },
        BindingSpec { key: KeyCode::C, mods: 0, mode: Mode::Insert, notmode: Mode::NoMode, actions: seq![ActionSpec::Text("c"@)] },
        BindingSpec { key: KeyCode::D, mods: 0, mode: Mode::Insert, notmode: Mode::NoMode, actions: seq![ActionSpec::Text("d"@)] },
        BindingSpec { key: KeyCode::E, mods: 0, mode: Mode::Insert, notmode: Mode::NoMode, actions: seq![ActionSpec::Text("e"@)] },
    ]
}

fn default_bindings_part_8_exec(v: &mut Vec<KeyBinding>)
    ensures
        bindings_fit(final(v)@, old(v)@.len() as int, default_bindings_part_8()),
        final(v)@.subrange(0, old(v)@.len() as int) == old(v)@,
{
    let ghost start = v@.len();
    v.push(bind(KeyCode::Key3, 0, Mode::Insert, Mode::NoMode, vec![text("3")]));
    v.push(bind(KeyCode::Key4, 0, Mode::Insert, Mode::NoMode, vec![text("4")]));
    v.push(bind(KeyCode::Key5, 0, Mode::Insert, Mode::NoMode, vec![text("5")]));
    v.push(bind(KeyCode::Key6, 0, Mode::Insert, Mode::NoMode, vec![text("6")]));
    v.push(bind(KeyCode::Key7, 0, Mode::Insert, Mode::NoMode, vec![text("7")]));
    v.push(bind(KeyCode::Key8, 0, Mode::Insert, Mode::NoMode, vec![text("8")]));
    v.push(bind(KeyCode::Key9, 0, Mode::Insert, Mode::NoMode, vec![text("9")]));
    v.push(bind(KeyCode::A, 0, Mode::Insert, Mode::NoMode, vec![text("a")]));
    v.push(bind(KeyCode::B, 0, Mode::Insert, Mode::NoMode, vec![text("b")]));
    v.push(bind(KeyCode::C, 0, Mode::Insert, Mode::NoMode, vec![text("c")]));
    v.push(bind(KeyCode::D, 0, Mode::Insert, Mode::NoMode, vec![text("d")]));
    v.push(bind(KeyCode::E, 0, Mode::Insert, Mode::NoMode, vec![text("e")]));
    proof {
        let s = default_bindings_part_8();
        assert(v@.len() == start + s.len());
        assert forall|i: int| 0 <= i < s.len() implies binding_fits(#[trigger] v@[start + i], s[i]) by {}
    }
}

/// Part 9 of the default key bindings.
pub open spec fn default_bindings_part_9() -> Seq<BindingSpec> {
    seq![
        BindingSpec { key: KeyCode::F, mods: 0, mode: Mode::Insert, notmode: Mode::NoMode, actions: seq![ActionSpec::Text("f"@)] },
        BindingSpec { key: KeyCode::G, mods: 0, mode: Mode::Insert, notmode: Mode::NoMode, actions: seq![ActionSpec::Text("g"@)] },
        BindingSpec { key: KeyCode::H, mods: 0, mode: Mode::Insert, notmode: Mode::NoMode, actions: seq![ActionSpec::Text("h"@)] },
        BindingSpec { key: KeyCode::I, mods: 0, mode: Mode::Insert, notmode: Mode::NoMode, actions: seq![ActionSpec::Text("i"@)] },
        BindingSpec { key: KeyCode::J, mods: 0, mode: Mode::Insert, notmode: Mode::NoMode, actions: seq![ActionSpec::Text("j"@)] },
        BindingSpec { key: KeyCode::K, mods: 0, mode: Mode::Insert, notmode: Mode::NoMode, actions: seq![ActionSpec::Text("k"@)] },
        BindingSpec { key: KeyCode::L, mods: 0, mode: Mode::Insert, notmode: Mode::NoMode, actions: seq![ActionSpec::Text("l"@)] },
        BindingSpec { key: KeyCode::M, mods: 0, mode: Mode::Insert, notmode: Mode::NoMode, actions: seq![ActionSpec::Text("m"@)] },
        BindingSpec { key: KeyCode::N, mods: 0, mode: Mode::Insert, notmode: Mode::NoMode, actions: seq![ActionSpec::Text("n"@)] },
        BindingSpec { key: KeyCode::O, mods: 0, mode: Mode::Insert, notmode: Mode::NoMode, actions: seq![ActionSpec::Text("o"@)] },
        BindingSpec { key: KeyCode::P, mods: 0, mode: Mode::Insert, notmode: Mode::NoMode, actions: seq![ActionSpec::Text("p"@)] },
        BindingSpec { key: KeyCode::Q, mods: 0, mode: Mode::Insert, notmode: Mode::NoMode, actions: seq![ActionSpec::Text("q"@)] },
    ]
}

fn default_bindings_part_9_exec(v: &mut Vec<KeyBinding>)
    ensures
        bindings_fit(final(v)@, old(v)@.len() as int, default_bindings_part_9()),
        final(v)@.subrange(0, old(v)@.len() as int) == old(v)@,
{
    let ghost start = v@.len();
    v.push(bind(KeyCode::F, 0, Mode::Insert, Mode::NoMode, vec![text("f")]));
    v.push(bind(KeyCode::G, 0, Mode::Insert, Mode::NoMode, vec![text("g")]));
    v.push(bind(KeyCode::H, 0, Mode::Insert, Mode::NoMode, vec![text("h")]));
    v.push(bind(KeyCode::I, 0, Mode::Insert, Mode::NoMode, vec![text("i")]));
    v.push(bind(KeyCode::J, 0, Mode::Insert, Mode::NoMode, vec![text("j")]));
    v.push(bind(KeyCode::K, 0, Mode::Insert, Mode::NoMode, vec![text("k")]));
    v.push(bind(KeyCode::L, 0, Mode::Insert, Mode::NoMode, vec![text("l")]));
    v.push(bind(KeyCode::M, 0, Mode::Insert, Mode::NoMode, vec![text("m")]));
    v.push(bind(KeyCode::N, 0, Mode::Insert, Mode::NoMode, vec![text("n")]));
    v.push(bind(KeyCode::O, 0, Mode::Insert, Mode::NoMode, vec![text("o")]));
    v.push(bind(KeyCode::P, 0, Mode::Insert, Mode::NoMode, vec![text("p")]));
    v.push(bind(KeyCode::Q, 0, Mode::Insert, Mode::NoMode, vec![text("q")]));
    proof {
        let s = default_bindings_part_9();
        assert(v@.len() == start + s.len());
        assert forall|i: int| 0 <= i < s.len() implies binding_fits(#[trigger] v@[start + i], s[i]) by {}
    }
}

/// Part 10 of the default key bindings.
pub open spec fn default_bindings_part_10() -> Seq<BindingSpec> {
    seq![
        BindingSpec { key: KeyCode::R, mods: 0, mode: Mode::Insert, notmode: Mode::NoMode, actions: seq![ActionSpec::Text("r"@)] },
        BindingSpec { key: KeyCode::S, mods: 0, mode: Mode::Insert, notmode: Mode::NoMode, actions: seq![ActionSpec::Text("s"@)] },
        BindingSpec { key: KeyCode::T, mods: 0, mode: Mode::Insert, notmode: Mode::NoMode, actions: seq![ActionSpec::Text("t"@)] },
        BindingSpec { key: KeyCode::U, mods: 0, mode: Mode::Insert, notmode: Mode::NoMode, actions: seq![ActionSpec::Text("u"@)] },
        BindingSpec { key: KeyCode::V, mods: 0, mode: Mode::Insert, notmode: Mode::NoMode, actions: seq![ActionSpec::Text("v"@)] },
        BindingSpec { key: KeyCode::W, mods: 0, mode: Mode::Insert, notmode: Mode::NoMode, actions: seq![ActionSpec::Text("w"@)] },
        BindingSpec { key: KeyCode::X, mods: 0, mode: Mode::Insert, notmode: Mode::NoMode, actions: seq![ActionSpec::Text("x"@)] },
        BindingSpec { key: KeyCode::Y, mods: 0, mode: Mode::Insert, notmode: Mode::NoMode, actions: seq![ActionSpec::Text("y"@)] },
        BindingSpec { key: KeyCode::Z, mods: 0, mode: Mode::Insert, notmode: Mode::NoMode, actions: seq![ActionSpec::Text("z"@)] },
        BindingSpec { key: KeyCode::A, mods: 4, mode: Mode::Insert, notmode: Mode::NoMode, actions: seq![ActionSpec::Text("A"@)] },
        BindingSpec { key: KeyCode::B, mods: 4, mode: Mode::Insert, notmode: Mode::NoMode, actions: seq![ActionSpec::Text("B"@)] },
        BindingSpec { key: KeyCode::C, mods: 4, mode: Mode::Insert, notmode: Mode::NoMode, actions: seq![ActionSpec::Text("C"@)] },
    ]
}

fn default_bindings_part_10_exec(v: &mut Vec<KeyBinding>)
    ensures
        bindings_fit(final(v)@, old(v)@.len() as int, default_bindings_part_10()),
        final(v)@.subrange(0, old(v)@.len() as int) == old(v)@,
{
    let ghost start = v@.len();
    v.push(bind(KeyCode::R, 0, Mode::Insert, Mode::NoMode, vec![text("r")]));
    v.push(bind(KeyCode::S, 0, Mode::Insert, Mode::NoMode, vec![text("s")]));
    v.push(bind(KeyCode::T, 0, Mode::Insert, Mode::NoMode, vec![text("t")]));
    v.push(bind(KeyCode::U, 0, Mode::Insert, Mode::NoMode, vec![text("u")]));
    v.push(bind(KeyCode::V, 0, Mode::Insert, Mode::NoMode, vec![text("v")]));
    v.push(bind(KeyCode::W, 0, Mode::Insert, Mode::NoMode, vec![text("w")]));
    v.push(bind(KeyCode::X, 0, Mode::Insert, Mode::NoMode, vec![text("x")]));
    v.push(bind(KeyCode::Y, 0, Mode::Insert, Mode::NoMode, vec![text("y")]));
    v.push(bind(KeyCode::Z, 0, Mode::Insert, Mode::NoMode, vec![text("z")]));
    v.push(bind(KeyCode::A, 4, Mode::Insert, Mode::NoMode, vec![text("A")]));
    v.push(bind(KeyCode::B, 4, Mode::Insert, Mode::NoMode, vec![text("B")]));
    v.push(bind(KeyCode::C, 4, Mode::Insert, Mode::NoMode, vec![text("C")]));
    proof {
        let s = default_bindings_part_10();
        assert(v@.len() == start + s.len());
        assert forall|i: int| 0 <= i < s.len() implies binding_fits(#[trigger] v@[start + i], s[i]) by {}
    }
}

/// Part 11 of the default key bindings.
pub open spec fn default_bindings_part_11() -> Seq<BindingSpec> {
    seq![
        BindingSpec { key: KeyCode::D, mods: 4, mode: Mode::Insert, notmode: Mode::NoMode, actions: seq![ActionSpec::Text("D"@)] },
        BindingSpec { key: KeyCode::E, mods: 4, mode: Mode::Insert, notmode: Mode::NoMode, actions: seq![ActionSpec::Text("E"@)] },
        BindingSpec { key: KeyCode::F, mods: 4, mode: Mode::Insert, notmode: Mode::NoMode, actions: seq![ActionSpec::Text("F"@)] },
        BindingSpec { key: KeyCode::G, mods: 4, mode: Mode::Insert, notmode: Mode::NoMode, actions: seq![ActionSpec::Text("G"@)] },
        BindingSpec { key: KeyCode::H, mods: 4, mode: Mode::Insert, notmode: Mode::NoMode, actions: seq![ActionSpec::Text("H"@)] },
        BindingSpec { key: KeyCode::I, mods: 4, mode: Mode::Insert, notmode: Mode::NoMode, actions: seq![ActionSpec::Text("I"@)] },
        BindingSpec { key: KeyCode::J, mods: 4, mode: Mode::Insert, notmode: Mode::NoMode, actions: seq![ActionSpec::Text("J"@)] },
        BindingSpec { key: KeyCode::K, mods: 4, mode: Mode::Insert, notmode: Mode::NoMode, actions: seq![ActionSpec::Text("K"@)] },
        BindingSpec { key: KeyCode::L, mods: 4, mode: Mode::Insert, notmode: Mode::NoMode, actions: seq![ActionSpec::Text("L"@)] },
        BindingSpec { key: KeyCode::M, mods: 4, mode: Mode::Insert, notmode: Mode::NoMode, actions: seq![ActionSpec::Text("M"@)] },
        BindingSpec { key: KeyCode::N, mods: 4, mode: Mode::Insert, notmode: Mode::NoMode, actions: seq![ActionSpec::Text("N"@)] },
        BindingSpec { key: KeyCode::O, mods: 4, mode: Mode::Insert, notmode: Mode::NoMode, actions: seq![ActionSpec::Text("O"@)] },
    ]
}

fn default_bindings_part_11_exec(v: &mut Vec<KeyBinding>)
    ensures
        bindings_fit(final(v)@, old(v)@.len() as int, default_bindings_part_11()),
        final(v)@.subrange(0, old(v)@.len() as int) == old(v)@,
{
    let ghost start = v@.len();
    v.push(bind(KeyCode::D, 4, Mode::Insert, Mode::NoMode, vec![text("D")]));
    v.push(bind(KeyCode::E, 4, Mode::Insert, Mode::NoMode, vec![text("E")]));
    v.push(bind(KeyCode::F, 4, Mode::Insert, Mode::NoMode, vec![text("F")]));
    v.push(bind(KeyCode::G, 4, Mode::Insert, Mode::NoMode, vec![text("G")]));
    v.push(bind(KeyCode::H, 4, Mode::Insert, Mode::NoMode, vec![text("H")]));
    v.push(bind(KeyCode::I, 4, Mode::Insert, Mode::NoMode, vec![text("I")]));
    v.push(bind(KeyCode::J, 4, Mode::Insert, Mode::NoMode, vec![text("J")]));
    v.push(bind(KeyCode::K, 4, Mode::Insert, Mode::NoMode, vec![text("K")]));
    v.push(bind(KeyCode::L, 4, Mode::Insert, Mode::NoMode, vec![text("L")]));
    v.push(bind(KeyCode::M, 4, Mode::Insert, Mode::NoMode, vec![text("M")]));
    v.push(bind(KeyCode::N, 4, Mode::Insert, Mode::NoMode, vec![text("N")]));
    v.push(bind(KeyCode::O, 4, Mode::Insert, Mode::NoMode, vec![text("O")]));
    proof {
        let s = default_bindings_part_11();
        assert(v@.len() == start + s.len());
        assert forall|i: int| 0 <= i < s.len() implies binding_fits(#[trigger] v@[start + i], s[i]) by {}
    }
}

/// Part 12 of the default key bindings.
pub open spec fn default_bindings_part_12() -> Seq<BindingSpec> {
    seq![
        BindingSpec { key: KeyCode::P, mods: 4, mode: Mode::Insert, notmode: Mode::NoMode, actions: seq![ActionSpec::Text("P"@)] },
        BindingSpec { key: KeyCode::Q, mods: 4, mode: Mode::Insert, notmode: Mode::NoMode, actions: seq![ActionSpec::Text("Q"@)] },
        BindingSpec { key: KeyCode::R, mods: 4, mode: Mode::Insert, notmode: Mode::NoMode, actions: seq![ActionSpec::Text("R"@)] },
        BindingSpec { key: KeyCode::S, mods: 4, mode: Mode::Insert, notmode: Mode::NoMode, actions: seq![ActionSpec::Text("S"@)] },
        BindingSpec { key: KeyCode::T, mods: 4, mode: Mode::Insert, notmode: Mode::NoMode, actions: seq![ActionSpec::Text("T"@)] },
        BindingSpec { key: KeyCode::U, mods: 4, mode: Mode::Insert, notmode: Mode::NoMode, actions: seq![ActionSpec::Text("U"@)] },
        BindingSpec { key: KeyCode::V, mods: 4, mode: Mode::Insert, notmode: Mode::NoMode, actions: seq![ActionSpec::Text("V"@)] },
        BindingSpec { key: KeyCode::W, mods: 4, mode: Mode::Insert, notmode: Mode::NoMode, actions: seq![ActionSpec::Text("W"@)] },
        BindingSpec { key: KeyCode::X, mods: 4, mode: Mode::Insert, notmode: Mode::NoMode, actions: seq![ActionSpec::Text("X"@)] },
        BindingSpec { key: KeyCode::Y, mods: 4, mode: Mode::Insert, notmode: Mode::NoMode, actions: seq![ActionSpec::Text("Y"@)] },
        BindingSpec { key: KeyCode::Z, mods: 4, mode: Mode::Insert, notmode: Mode::NoMode, actions: seq![ActionSpec::Text("Z"@)] },
    ]
}

fn default_bindings_part_12_exec(v: &mut Vec<KeyBinding>)
    ensures
        bindings_fit(final(v)@, old(v)@.len() as int, default_bindings_part_12()),
        final(v)@.subrange(0, old(v)@.len() as int) == old(v)@,
{
    let ghost start = v@.len();
    v.push(bind(KeyCode::P, 4, Mode::Insert, Mode::NoMode, vec![text("P")]));
    v.push(bind(KeyCode::Q, 4, Mode::Insert, Mode::NoMode, vec![text("Q")]));
    v.push(bind(KeyCode::R, 4, Mode::Insert, Mode::NoMode, vec![text("R")]));
    v.push(bind(KeyCode::S, 4, Mode::Insert, Mode::NoMode, vec![text("S")]));
    v.push(bind(KeyCode::T, 4, Mode::Insert, Mode::NoMode, vec![text("T")]));
    v.push(bind(KeyCode::U, 4, Mode::Insert, Mode::NoMode, vec![text("U")]));
    v.push(bind(KeyCode::V, 4, Mode::Insert, Mode::NoMode, vec![text("V")]));
    v.push(bind(KeyCode::W, 4, Mode::Insert, Mode::NoMode, vec![text("W")]));
    v.push(bind(KeyCode::X, 4, Mode::Insert, Mode::NoMode, vec![text("X")]));
    v.push(bind(KeyCode::Y, 4, Mode::Insert, Mode::NoMode, vec![text("Y")]));
    v.push(bind(KeyCode::Z, 4, Mode::Insert, Mode::NoMode, vec![text("Z")]));
    proof {
        let s = default_bindings_part_12();
        assert(v@.len() == start + s.len());
        assert forall|i: int| 0 <= i < s.len() implies binding_fits(#[trigger] v@[start + i], s[i]) by {}
    }
}
/// Part 13 of the default key bindings: the function keys that choose a
/// theme (F1 to F3) and toggle the line numbers (F5), in every mode.
pub open spec fn default_bindings_part_13() -> Seq<BindingSpec> {
    seq![
        BindingSpec { key: KeyCode::F1, mods: 0, mode: Mode::NoMode, notmode: Mode::NoMode, actions: seq![ActionSpec::Theme("Solarized (dark)"@)] },
        BindingSpec { key: KeyCode::F2, mods: 0, mode: Mode::NoMode, notmode: Mode::NoMode, actions: seq![ActionSpec::Theme("Solarized (light)"@)] },
        BindingSpec { key: KeyCode::F3, mods: 0, mode: Mode::NoMode, notmode: Mode::NoMode, actions: seq![ActionSpec::Theme("InspiredGitHub"@)] },
        BindingSpec { key: KeyCode::F5, mods: 0, mode: Mode::NoMode, notmode: Mode::NoMode, actions: seq![ActionSpec::Act(Action::ToggleLineNumbers)] },
    ]
}

fn default_bindings_part_13_exec(v: &mut Vec<KeyBinding>)
    ensures
        bindings_fit(final(v)@, old(v)@.len() as int, default_bindings_part_13()),
        final(v)@.subrange(0, old(v)@.len() as int) == old(v)@,
{
    let ghost start = v@.len();
    v.push(bind(KeyCode::F1, 0, Mode::NoMode, Mode::NoMode, vec![theme("Solarized (dark)")]));
    v.push(bind(KeyCode::F2, 0, Mode::NoMode, Mode::NoMode, vec![theme("Solarized (light)")]));
    v.push(bind(KeyCode::F3, 0, Mode::NoMode, Mode::NoMode, vec![theme("InspiredGitHub")]));
    v.push(bind(KeyCode::F5, 0, Mode::NoMode, Mode::NoMode, vec![Action::ToggleLineNumbers]));
    proof {
        let s = default_bindings_part_13();
        assert(v@.len() == start + s.len());
        assert forall|i: int| 0 <= i < s.len() implies binding_fits(#[trigger] v@[start + i], s[i]) by {}
    }
}
/// The default key bindings, in order.
pub open spec fn default_bindings() -> Seq<BindingSpec> {
    default_bindings_part_0() + default_bindings_part_1() + default_bindings_part_2() + default_bindings_part_3() + default_bindings_part_4() + default_bindings_part_5() + default_bindings_part_6() + default_bindings_part_7() + default_bindings_part_8() + default_bindings_part_9() + default_bindings_part_10() + default_bindings_part_11() + default_bindings_part_12() + default_bindings_part_13()
}

/// The default key bindings: those of the modes, of typing, of motions by
/// characters, words, lines and pages, of deleting and of selecting, then
/// those that type symbols, digits and letters in the insert mode, and last
/// the function keys for themes and line numbers.
pub fn default_key_bindings() -> (r: Vec<KeyBinding>)
    ensures
        bindings_fit(r@, 0, default_bindings()),
{
    let mut v: Vec<KeyBinding> = Vec::new();
    proof { assert(bindings_fit(v@, 0, Seq::<BindingSpec>::empty())); }
    let ghost before = v@;
    default_bindings_part_0_exec(&mut v);
    proof { lemma_fit_append(before, v@, Seq::<BindingSpec>::empty(), default_bindings_part_0()); assert(Seq::<BindingSpec>::empty() + default_bindings_part_0() =~= default_bindings_part_0()); }
    let ghost before = v@;
    default_bindings_part_1_exec(&mut v);
    proof { lemma_fit_append(before, v@, default_bindings_part_0(), default_bindings_part_1()); }
    let ghost before = v@;
    default_bindings_part_2_exec(&mut v);
    proof { lemma_fit_append(before, v@, default_bindings_part_0() + default_bindings_part_1(), default_bindings_part_2()); }
    let ghost before = v@;
    default_bindings_part_3_exec(&mut v);
    proof { lemma_fit_append(before, v@, default_bindings_part_0() + default_bindings_part_1() + default_bindings_part_2(), default_bindings_part_3()); }
    let ghost before = v@;
    default_bindings_part_4_exec(&mut v);
    proof { lemma_fit_append(before, v@, default_bindings_part_0() + default_bindings_part_1() + default_bindings_part_2() + default_bindings_part_3(), default_bindings_part_4()); }
    let ghost before = v@;
    default_bindings_part_5_exec(&mut v);
    proof { lemma_fit_append(before, v@, default_bindings_part_0() + default_bindings_part_1() + default_bindings_part_2() + default_bindings_part_3() + default_bindings_part_4(), default_bindings_part_5()); }
    let ghost before = v@;
    default_bindings_part_6_exec(&mut v);
    proof { lemma_fit_append(before, v@, default_bindings_part_0() + default_bindings_part_1() + default_bindings_part_2() + default_bindings_part_3() + default_bindings_part_4() + default_bindings_part_5(), default_bindings_part_6()); }
    let ghost before = v@;
    default_bindings_part_7_exec(&mut v);
    proof { lemma_fit_append(before, v@, default_bindings_part_0() + default_bindings_part_1() + default_bindings_part_2() + default_bindings_part_3() + default_bindings_part_4() + default_bindings_part_5() + default_bindings_part_6(), default_bindings_part_7()); }
    let ghost before = v@;
    default_bindings_part_8_exec(&mut v);
    proof { lemma_fit_append(before, v@, default_bindings_part_0() + default_bindings_part_1() + default_bindings_part_2() + default_bindings_part_3() + default_bindings_part_4() + default_bindings_part_5() + default_bindings_part_6() + default_bindings_part_7(), default_bindings_part_8()); }
    let ghost before = v@;
    default_bindings_part_9_exec(&mut v);
    proof { lemma_fit_append(before, v@, default_bindings_part_0() + default_bindings_part_1() + default_bindings_part_2() + default_bindings_part_3() + default_bindings_part_4() + default_bindings_part_5() + default_bindings_part_6() + default_bindings_part_7() + default_bindings_part_8(), default_bindings_part_9()); }
    let ghost before = v@;
    default_bindings_part_10_exec(&mut v);
    proof { lemma_fit_append(before, v@, default_bindings_part_0() + default_bindings_part_1() + default_bindings_part_2() + default_bindings_part_3() + default_bindings_part_4() + default_bindings_part_5() + default_bindings_part_6() + default_bindings_part_7() + default_bindings_part_8() + default_bindings_part_9(), default_bindings_part_10()); }
    let ghost before = v@;
    default_bindings_part_11_exec(&mut v);
    proof { lemma_fit_append(before, v@, default_bindings_part_0() + default_bindings_part_1() + default_bindings_part_2() + default_bindings_part_3() + default_bindings_part_4() + default_bindings_part_5() + default_bindings_part_6() + default_bindings_part_7() + default_bindings_part_8() + default_bindings_part_9() + default_bindings_part_10(), default_bindings_part_11()); }
    let ghost before = v@;
    default_bindings_part_12_exec(&mut v);
    proof { lemma_fit_append(before, v@, default_bindings_part_0() + default_bindings_part_1() + default_bindings_part_2() + default_bindings_part_3() + default_bindings_part_4() + default_bindings_part_5() + default_bindings_part_6() + default_bindings_part_7() + default_bindings_part_8() + default_bindings_part_9() + default_bindings_part_10() + default_bindings_part_11(), default_bindings_part_12()); }
    let ghost before = v@;
    default_bindings_part_13_exec(&mut v);
    proof { lemma_fit_append(before, v@, default_bindings_part_0() + default_bindings_part_1() + default_bindings_part_2() + default_bindings_part_3() + default_bindings_part_4() + default_bindings_part_5() + default_bindings_part_6() + default_bindings_part_7() + default_bindings_part_8() + default_bindings_part_9() + default_bindings_part_10() + default_bindings_part_11() + default_bindings_part_12(), default_bindings_part_13()); }
    v
}

/// The direction an action moves, extends, deletes or adds a cursor in.
pub open spec fn action_motion(a: Action) -> Option<Motion> {
    match a {
        Action::Move(m, _) => Some(m),
        Action::MoveSelection(m, _) => Some(m),
        Action::Delete(m, _) => Some(m),
        Action::AddSelection(m) => Some(m),
        _ => None,
    }
}

/// Whether an action of the table is a motion in direction `m`.
pub open spec fn moves_in(a: ActionSpec, m: Motion) -> bool {
    match a {
        ActionSpec::Act(x) => action_motion(x) == Some(m),
        _ => false,
    }
}

/// Whether every action of a table entry is a motion in direction `m`.
pub open spec fn all_move_in(s: BindingSpec, m: Motion) -> bool {
    forall|i: int| 0 <= i < s.actions.len() ==> moves_in(#[trigger] s.actions[i], m)
}

/// Whether a table entry for an arrow key up or down, with no modifier,
/// moves only in the arrow's direction.
pub open spec fn keeps_direction(s: BindingSpec) -> bool {
    &&& s.key == KeyCode::Down && s.mods == 0 ==> all_move_in(s, Motion::Below)
    &&& s.key == KeyCode::Up && s.mods == 0 ==> all_move_in(s, Motion::Above)
}

/// Whether every entry of a table keeps its arrow's direction.
pub open spec fn all_keep_direction(t: Seq<BindingSpec>) -> bool {
    forall|j: int| 0 <= j < t.len() ==> keeps_direction(#[trigger] t[j])
}

proof fn lemma_keep_direction_concat(a: Seq<BindingSpec>, b: Seq<BindingSpec>)
    requires
        all_keep_direction(a),
        all_keep_direction(b),
    ensures
        all_keep_direction(a + b),
{
    assert forall|j: int| 0 <= j < (a + b).len() implies keeps_direction(#[trigger] (a + b)[j]) by {
        if j < a.len() {
            assert((a + b)[j] == a[j]);
        } else {
            assert((a + b)[j] == b[j - a.len()]);
        }
    }
}

proof fn lemma_part_0_keeps_direction()
    ensures
        all_keep_direction(default_bindings_part_0()),
{
    let t = default_bindings_part_0();
    assert(t.len() == 12);
    assert forall|j: int| 0 <= j < t.len() implies keeps_direction(#[trigger] t[j]) by {
        if j == 0 {
            assert(keeps_direction(t[0]));
        } else if j == 1 {
            assert(keeps_direction(t[1]));
        } else if j == 2 {
            assert(keeps_direction(t[2]));
        } else if j == 3 {
            assert(keeps_direction(t[3]));
        } else if j == 4 {
            assert(keeps_direction(t[4]));
        } else if j == 5 {
            assert(keeps_direction(t[5]));
        } else if j == 6 {
            assert(keeps_direction(t[6]));
        } else if j == 7 {
            assert(keeps_direction(t[7]));
        } else if j == 8 {
            assert(keeps_direction(t[8]));
        } else if j == 9 {
            assert(keeps_direction(t[9]));
        } else if j == 10 {
            assert(keeps_direction(t[10]));
        } else if j == 11 {
            assert(keeps_direction(t[11]));
        }
    }
}

proof fn lemma_part_1_keeps_direction()
    ensures
        all_keep_direction(default_bindings_part_1()),
{
    let t = default_bindings_part_1();
    assert(t.len() == 12);
    assert forall|j: int| 0 <= j < t.len() implies keeps_direction(#[trigger] t[j]) by {
        if j == 0 {
            assert(keeps_direction(t[0]));
        } else if j == 1 {
            assert(keeps_direction(t[1]));
        } else if j == 2 {
            assert(keeps_direction(t[2]));
        } else if j == 3 {
            assert(keeps_direction(t[3]));
        } else if j == 4 {
            assert(keeps_direction(t[4]));
        } else if j == 5 {
            assert(keeps_direction(t[5]));
        } else if j == 6 {
            assert(keeps_direction(t[6]));
        } else if j == 7 {
            assert(keeps_direction(t[7]));
        } else if j == 8 {
            assert(keeps_direction(t[8]));
        } else if j == 9 {
            assert(keeps_direction(t[9]));
        } else if j == 10 {
            assert(keeps_direction(t[10]));
        } else if j == 11 {
            assert(keeps_direction(t[11]));
        }
    }
}

proof fn lemma_part_2_keeps_direction()
    ensures
        all_keep_direction(default_bindings_part_2()),
{
    let t = default_bindings_part_2();
    assert(t.len() == 12);
    assert forall|j: int| 0 <= j < t.len() implies keeps_direction(#[trigger] t[j]) by {
        if j == 0 {
            assert(keeps_direction(t[0]));
        } else if j == 1 {
            assert(keeps_direction(t[1]));
        } else if j == 2 {
            assert(keeps_direction(t[2]));
        } else if j == 3 {
            assert(keeps_direction(t[3]));
        } else if j == 4 {
            assert(keeps_direction(t[4]));
        } else if j == 5 {
            assert(keeps_direction(t[5]));
        } else if j == 6 {
            assert(keeps_direction(t[6]));
        } else if j == 7 {
            assert(keeps_direction(t[7]));
        } else if j == 8 {
            assert(keeps_direction(t[8]));
        } else if j == 9 {
            assert(keeps_direction(t[9]));
        } else if j == 10 {
            assert(keeps_direction(t[10]));
        } else if j == 11 {
            assert(keeps_direction(t[11]));
        }
    }
}

proof fn lemma_part_3_keeps_direction()
    ensures
        all_keep_direction(default_bindings_part_3()),
{
    let t = default_bindings_part_3();
    assert(t.len() == 12);
    assert forall|j: int| 0 <= j < t.len() implies keeps_direction(#[trigger] t[j]) by {
        if j == 0 {
            assert(keeps_direction(t[0]));
        } else if j == 1 {
            assert(keeps_direction(t[1]));
        } else if j == 2 {
            assert(keeps_direction(t[2]));
        } else if j == 3 {
            assert(keeps_direction(t[3]));
        } else if j == 4 {
            assert(keeps_direction(t[4]));
        } else if j == 5 {
            assert(keeps_direction(t[5]));
        } else if j == 6 {
            assert(keeps_direction(t[6]));
        } else if j == 7 {
            assert(keeps_direction(t[7]));
        } else if j == 8 {
            assert(keeps_direction(t[8]));
        } else if j == 9 {
            assert(keeps_direction(t[9]));
        } else if j == 10 {
            assert(keeps_direction(t[10]));
        } else if j == 11 {
            assert(keeps_direction(t[11]));
        }
    }
}

proof fn lemma_part_4_keeps_direction()
    ensures
        all_keep_direction(default_bindings_part_4()),
{
    let t = default_bindings_part_4();
    assert(t.len() == 12);
    assert forall|j: int| 0 <= j < t.len() implies keeps_direction(#[trigger] t[j]) by {
        if j == 0 {
            assert(keeps_direction(t[0]));
        } else if j == 1 {
            assert(keeps_direction(t[1]));
        } else if j == 2 {
            assert(keeps_direction(t[2]));
        } else if j == 3 {
            assert(keeps_direction(t[3]));
        } else if j == 4 {
            assert(keeps_direction(t[4]));
        } else if j == 5 {
            assert(keeps_direction(t[5]));
        } else if j == 6 {
            assert(keeps_direction(t[6]));
        } else if j == 7 {
            assert(keeps_direction(t[7]));
        } else if j == 8 {
            assert(keeps_direction(t[8]));
        } else if j == 9 {
            assert(keeps_direction(t[9]));
        } else if j == 10 {
            assert(keeps_direction(t[10]));
        } else if j == 11 {
            assert(keeps_direction(t[11]));
        }
    }
}

proof fn lemma_part_5_keeps_direction()
    ensures
        all_keep_direction(default_bindings_part_5()),
{
    let t = default_bindings_part_5();
    assert(t.len() == 12);
    assert forall|j: int| 0 <= j < t.len() implies keeps_direction(#[trigger] t[j]) by {
        if j == 0 {
            assert(keeps_direction(t[0]));
        } else if j == 1 {
            assert(keeps_direction(t[1]));
        } else if j == 2 {
            assert(keeps_direction(t[2]));
        } else if j == 3 {
            assert(keeps_direction(t[3]));
        } else if j == 4 {
            assert(keeps_direction(t[4]));
        } else if j == 5 {
            assert(keeps_direction(t[5]));
        } else if j == 6 {
            assert(keeps_direction(t[6]));
        } else if j == 7 {
            assert(keeps_direction(t[7]));
        } else if j == 8 {
            assert(keeps_direction(t[8]));
        } else if j == 9 {
            assert(keeps_direction(t[9]));
        } else if j == 10 {
            assert(keeps_direction(t[10]));
        } else if j == 11 {
            assert(keeps_direction(t[11]));
        }
    }
}

proof fn lemma_part_6_keeps_direction()
    ensures
        all_keep_direction(default_bindings_part_6()),
{
    let t = default_bindings_part_6();
    assert(t.len() == 12);
    assert forall|j: int| 0 <= j < t.len() implies keeps_direction(#[trigger] t[j]) by {
        if j == 0 {
            assert(keeps_direction(t[0]));
        } else if j == 1 {
            assert(keeps_direction(t[1]));
        } else if j == 2 {
            assert(keeps_direction(t[2]));
        } else if j == 3 {
            assert(keeps_direction(t[3]));
        } else if j == 4 {
            assert(keeps_direction(t[4]));
        } else if j == 5 {
            assert(keeps_direction(t[5]));
        } else if j == 6 {
            assert(keeps_direction(t[6]));
        } else if j == 7 {
            assert(keeps_direction(t[7]));
        } else if j == 8 {
            assert(keeps_direction(t[8]));
        } else if j == 9 {
            assert(keeps_direction(t[9]));
        } else if j == 10 {
            assert(keeps_direction(t[10]));
        } else if j == 11 {
            assert(keeps_direction(t[11]));
        }
    }
}

proof fn lemma_part_7_keeps_direction()
    ensures
        all_keep_direction(default_bindings_part_7()),
{
    let t = default_bindings_part_7();
    assert(t.len() == 12);
    assert forall|j: int| 0 <= j < t.len() implies keeps_direction(#[trigger] t[j]) by {
        if j == 0 {
            assert(keeps_direction(t[0]));
        } else if j == 1 {
            assert(keeps_direction(t[1]));
        } else if j == 2 {
            assert(keeps_direction(t[2]));
        } else if j == 3 {
            assert(keeps_direction(t[3]));
        } else if j == 4 {
            assert(keeps_direction(t[4]));
        } else if j == 5 {
            assert(keeps_direction(t[5]));
        } else if j == 6 {
            assert(keeps_direction(t[6]));
        } else if j == 7 {
            assert(keeps_direction(t[7]));
        } else if j == 8 {
            assert(keeps_direction(t[8]));
        } else if j == 9 {
            assert(keeps_direction(t[9]));
        } else if j == 10 {
            assert(keeps_direction(t[10]));
        } else if j == 11 {
            assert(keeps_direction(t[11]));
        }
    }
}

proof fn lemma_part_8_keeps_direction()
    ensures
        all_keep_direction(default_bindings_part_8()),
{
    let t = default_bindings_part_8();
    assert(t.len() == 12);
    assert forall|j: int| 0 <= j < t.len() implies keeps_direction(#[trigger] t[j]) by {
        if j == 0 {
            assert(keeps_direction(t[0]));
        } else if j == 1 {
            assert(keeps_direction(t[1]));
        } else if j == 2 {
            assert(keeps_direction(t[2]));
        } else if j == 3 {
            assert(keeps_direction(t[3]));
        } else if j == 4 {
            assert(keeps_direction(t[4]));
        } else if j == 5 {
            assert(keeps_direction(t[5]));
        } else if j == 6 {
            assert(keeps_direction(t[6]));
        } else if j == 7 {
            assert(keeps_direction(t[7]));
        } else if j == 8 {
            assert(keeps_direction(t[8]));
        } else if j == 9 {
            assert(keeps_direction(t[9]));
        } else if j == 10 {
            assert(keeps_direction(t[10]));
        } else if j == 11 {
            assert(keeps_direction(t[11]));
        }
    }
}

proof fn lemma_part_9_keeps_direction()
    ensures
        all_keep_direction(default_bindings_part_9()),
{
    let t = default_bindings_part_9();
    assert(t.len() == 12);
    assert forall|j: int| 0 <= j < t.len() implies keeps_direction(#[trigger] t[j]) by {
        if j == 0 {
            assert(keeps_direction(t[0]));
        } else if j == 1 {
            assert(keeps_direction(t[1]));
        } else if j == 2 {
            assert(keeps_direction(t[2]));
        } else if j == 3 {
            assert(keeps_direction(t[3]));
        } else if j == 4 {
            assert(keeps_direction(t[4]));
        } else if j == 5 {
            assert(keeps_direction(t[5]));
        } else if j == 6 {
            assert(keeps_direction(t[6]));
        } else if j == 7 {
            assert(keeps_direction(t[7]));
        } else if j == 8 {
            assert(keeps_direction(t[8]));
        } else if j == 9 {
            assert(keeps_direction(t[9]));
        } else if j == 10 {
            assert(keeps_direction(t[10]));
        } else if j == 11 {
            assert(keeps_direction(t[11]));
        }
    }
}

proof fn lemma_part_10_keeps_direction()
    ensures
        all_keep_direction(default_bindings_part_10()),
{
    let t = default_bindings_part_10();
    assert(t.len() == 12);
    assert forall|j: int| 0 <= j < t.len() implies keeps_direction(#[trigger] t[j]) by {
        if j == 0 {
            assert(keeps_direction(t[0]));
        } else if j == 1 {
            assert(keeps_direction(t[1]));
        } else if j == 2 {
            assert(keeps_direction(t[2]));
        } else if j == 3 {
            assert(keeps_direction(t[3]));
        } else if j == 4 {
            assert(keeps_direction(t[4]));
        } else if j == 5 {
            assert(keeps_direction(t[5]));
        } else if j == 6 {
            assert(keeps_direction(t[6]));
        } else if j == 7 {
            assert(keeps_direction(t[7]));
        } else if j == 8 {
            assert(keeps_direction(t[8]));
        } else if j == 9 {
            assert(keeps_direction(t[9]));
        } else if j == 10 {
            assert(keeps_direction(t[10]));
        } else if j == 11 {
            assert(keeps_direction(t[11]));
        }
    }
}

proof fn lemma_part_11_keeps_direction()
    ensures
        all_keep_direction(default_bindings_part_11()),
{
    let t = default_bindings_part_11();
    assert(t.len() == 12);
    assert forall|j: int| 0 <= j < t.len() implies keeps_direction(#[trigger] t[j]) by {
        if j == 0 {
            assert(keeps_direction(t[0]));
        } else if j == 1 {
            assert(keeps_direction(t[1]));
        } else if j == 2 {
            assert(keeps_direction(t[2]));
        } else if j == 3 {
            assert(keeps_direction(t[3]));
        } else if j == 4 {
            assert(keeps_direction(t[4]));
        } else if j == 5 {
            assert(keeps_direction(t[5]));
        } else if j == 6 {
            assert(keeps_direction(t[6]));
        } else if j == 7 {
            assert(keeps_direction(t[7]));
        } else if j == 8 {
            assert(keeps_direction(t[8]));
        } else if j == 9 {
            assert(keeps_direction(t[9]));
        } else if j == 10 {
            assert(keeps_direction(t[10]));
        } else if j == 11 {
            assert(keeps_direction(t[11]));
        }
    }
}

proof fn lemma_part_12_keeps_direction()
    ensures
        all_keep_direction(default_bindings_part_12()),
{
    let t = default_bindings_part_12();
    assert(t.len() == 11);
    assert forall|j: int| 0 <= j < t.len() implies keeps_direction(#[trigger] t[j]) by {
        if j == 0 {
            assert(keeps_direction(t[0]));
        } else if j == 1 {
            assert(keeps_direction(t[1]));
        } else if j == 2 {
            assert(keeps_direction(t[2]));
        } else if j == 3 {
            assert(keeps_direction(t[3]));
        } else if j == 4 {
            assert(keeps_direction(t[4]));
        } else if j == 5 {
            assert(keeps_direction(t[5]));
        } else if j == 6 {
            assert(keeps_direction(t[6]));
        } else if j == 7 {
            assert(keeps_direction(t[7]));
        } else if j == 8 {
            assert(keeps_direction(t[8]));
        } else if j == 9 {
            assert(keeps_direction(t[9]));
        } else if j == 10 {
            assert(keeps_direction(t[10]));
        }
    }
}

proof fn lemma_part_13_keeps_direction()
    ensures
        all_keep_direction(default_bindings_part_13()),
{
    let t = default_bindings_part_13();
    assert(t.len() == 4);
    assert forall|j: int| 0 <= j < t.len() implies keeps_direction(#[trigger] t[j]) by {
        if j == 0 {
            assert(keeps_direction(t[0]));
        } else if j == 1 {
            assert(keeps_direction(t[1]));
        } else if j == 2 {
            assert(keeps_direction(t[2]));
        } else if j == 3 {
            assert(keeps_direction(t[3]));
        }
    }
}

proof fn lemma_default_bindings_keep_direction()
    ensures
        all_keep_direction(default_bindings()),
{
    lemma_part_0_keeps_direction();
    lemma_part_1_keeps_direction();
    lemma_keep_direction_concat(default_bindings_part_0(), default_bindings_part_1());
    lemma_part_2_keeps_direction();
    lemma_keep_direction_concat(default_bindings_part_0() + default_bindings_part_1(), default_bindings_part_2());
    lemma_part_3_keeps_direction();
    lemma_keep_direction_concat(default_bindings_part_0() + default_bindings_part_1() + default_bindings_part_2(), default_bindings_part_3());
    lemma_part_4_keeps_direction();
    lemma_keep_direction_concat(default_bindings_part_0() + default_bindings_part_1() + default_bindings_part_2() + default_bindings_part_3(), default_bindings_part_4());
    lemma_part_5_keeps_direction();
    lemma_keep_direction_concat(default_bindings_part_0() + default_bindings_part_1() + default_bindings_part_2() + default_bindings_part_3() + default_bindings_part_4(), default_bindings_part_5());
    lemma_part_6_keeps_direction();
    lemma_keep_direction_concat(default_bindings_part_0() + default_bindings_part_1() + default_bindings_part_2() + default_bindings_part_3() + default_bindings_part_4() + default_bindings_part_5(), default_bindings_part_6());
    lemma_part_7_keeps_direction();
    lemma_keep_direction_concat(default_bindings_part_0() + default_bindings_part_1() + default_bindings_part_2() + default_bindings_part_3() + default_bindings_part_4() + default_bindings_part_5() + default_bindings_part_6(), default_bindings_part_7());
    lemma_part_8_keeps_direction();
    lemma_keep_direction_concat(default_bindings_part_0() + default_bindings_part_1() + default_bindings_part_2() + default_bindings_part_3() + default_bindings_part_4() + default_bindings_part_5() + default_bindings_part_6() + default_bindings_part_7(), default_bindings_part_8());
    lemma_part_9_keeps_direction();
    lemma_keep_direction_concat(default_bindings_part_0() + default_bindings_part_1() + default_bindings_part_2() + default_bindings_part_3() + default_bindings_part_4() + default_bindings_part_5() + default_bindings_part_6() + default_bindings_part_7() + default_bindings_part_8(), default_bindings_part_9());
    lemma_part_10_keeps_direction();
    lemma_keep_direction_concat(default_bindings_part_0() + default_bindings_part_1() + default_bindings_part_2() + default_bindings_part_3() + default_bindings_part_4() + default_bindings_part_5() + default_bindings_part_6() + default_bindings_part_7() + default_bindings_part_8() + default_bindings_part_9(), default_bindings_part_10());
    lemma_part_11_keeps_direction();
    lemma_keep_direction_concat(default_bindings_part_0() + default_bindings_part_1() + default_bindings_part_2() + default_bindings_part_3() + default_bindings_part_4() + default_bindings_part_5() + default_bindings_part_6() + default_bindings_part_7() + default_bindings_part_8() + default_bindings_part_9() + default_bindings_part_10(), default_bindings_part_11());
    lemma_part_12_keeps_direction();
    lemma_keep_direction_concat(default_bindings_part_0() + default_bindings_part_1() + default_bindings_part_2() + default_bindings_part_3() + default_bindings_part_4() + default_bindings_part_5() + default_bindings_part_6() + default_bindings_part_7() + default_bindings_part_8() + default_bindings_part_9() + default_bindings_part_10() + default_bindings_part_11(), default_bindings_part_12());
    lemma_part_13_keeps_direction();
    lemma_keep_direction_concat(default_bindings_part_0() + default_bindings_part_1() + default_bindings_part_2() + default_bindings_part_3() + default_bindings_part_4() + default_bindings_part_5() + default_bindings_part_6() + default_bindings_part_7() + default_bindings_part_8() + default_bindings_part_9() + default_bindings_part_10() + default_bindings_part_11() + default_bindings_part_12(), default_bindings_part_13());
}

proof fn lemma_fired_move(v: Seq<KeyBinding>, mode: Mode, k: KeyCode, m: Motion, n: int)
    requires
        bindings_fit(v, 0, default_bindings()),
        all_keep_direction(default_bindings()),
        (k == KeyCode::Down && m == Motion::Below) || (k == KeyCode::Up && m == Motion::Above),
        0 <= n <= v.len(),
    ensures
        forall|i: int|
            0 <= i < fired_actions(v.take(n), mode, ModifiersState { bits: 0 }, Key::KeyCode(k)).len()
                ==> action_motion(
                #[trigger] fired_actions(v.take(n), mode, ModifiersState { bits: 0 }, Key::KeyCode(k))[i],
            ) == Some(m),
    decreases n,
{
    let mods = ModifiersState { bits: 0 };
    if n > 0 {
        lemma_fired_move(v, mode, k, m, n - 1);
        let vt = v.take(n);
        assert(vt.drop_last() =~= v.take(n - 1));
        let b = vt.last();
        assert(b == v[0 + (n - 1)]);
        let before = fired_actions(v.take(n - 1), mode, mods, Key::KeyCode(k));
        let all = fired_actions(vt, mode, mods, Key::KeyCode(k));
        if triggers(b, mode, mods, Key::KeyCode(k)) {
            let sp = default_bindings()[n - 1];
            assert(binding_fits(v[0 + (n - 1)], sp));
            assert(sp.key == k && sp.mods == 0);
            assert(keeps_direction(sp));
            assert forall|i: int| 0 <= i < all.len() implies action_motion(#[trigger] all[i]) == Some(m) by {
                if i >= before.len() {
                    let j = i - before.len();
                    assert(all[i] == b.actions_spec()[j]);
                    assert(moves_in(sp.actions[j], m));
                    assert(action_fits(b.actions_spec()[j], sp.actions[j]));
                }
            }
        }
    }
}

/// In every mode, the Down arrow with no modifier only moves, extends,
/// deletes or adds cursors downward, and the Up arrow only upward: the
/// actions the default bindings fire for them all go in their direction.
pub proof fn law_arrow_keys_keep_direction(v: Seq<KeyBinding>, mode: Mode)
    requires
        bindings_fit(v, 0, default_bindings()),
    ensures
        forall|i: int|
            0 <= i < fired_actions(v, mode, ModifiersState { bits: 0 }, Key::KeyCode(KeyCode::Down)).len()
                ==> action_motion(
                #[trigger] fired_actions(v, mode, ModifiersState { bits: 0 }, Key::KeyCode(KeyCode::Down))[i],
            ) == Some(Motion::Below),
        forall|i: int|
            0 <= i < fired_actions(v, mode, ModifiersState { bits: 0 }, Key::KeyCode(KeyCode::Up)).len()
                ==> action_motion(
                #[trigger] fired_actions(v, mode, ModifiersState { bits: 0 }, Key::KeyCode(KeyCode::Up))[i],
            ) == Some(Motion::Above),
{
    lemma_default_bindings_keep_direction();
    lemma_fired_move(v, mode, KeyCode::Down, Motion::Below, v.len() as int);
    lemma_fired_move(v, mode, KeyCode::Up, Motion::Above, v.len() as int);
    assert(v.take(v.len() as int) =~= v);
}

} // verus!

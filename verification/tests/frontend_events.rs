use eddy::actions::Action;
use eddy::frontend::events::binding::{acquire_input_actions, select_binding, Binding, KeyBinding, MouseBinding};
use eddy::frontend::events::default_bindings::default_key_bindings;
use eddy::frontend::events::keys::{Key, KeyCode, ModifiersState, MouseButton, CTRL, SHIFT};
use eddy::frontend::events::mapper::{map_char, map_scancode};
use eddy::frontend::events::state::{ElementState, KeyEvent, KeyboardInput, KeyboardState};
use eddy::kinds::{Mode, Motion, Quantity};

#[test]
fn scancodes_without_names_are_mapped() {
    assert_eq!(map_scancode(0x02), Some(KeyCode::Key1));
    assert_eq!(map_scancode(0x0b), Some(KeyCode::Key0));
    assert_eq!(map_scancode(0x29), Some(KeyCode::Grave));
    assert_eq!(map_scancode(0x7e), Some(KeyCode::Grave));
    assert_eq!(map_scancode(0x1b), Some(KeyCode::RBracket));
    assert_eq!(map_scancode(0x50), None);
}

#[test]
fn characters_map_to_their_keys() {
    assert_eq!(map_char('a'), Some(KeyCode::A));
    assert_eq!(map_char('Z'), Some(KeyCode::Z));
    assert_eq!(map_char('7'), Some(KeyCode::Key7));
    assert_eq!(map_char('ı'), Some(KeyCode::I));
    assert_eq!(map_char('ſ'), Some(KeyCode::S));
    assert_eq!(map_char('é'), None);
    assert_eq!(map_char('.'), None);
    for c in ['q', 'Q', 'ı', 'ſ', '3', 'x'] {
        let upper: String = c.to_uppercase().collect();
        let expected = map_char(upper.chars().next().unwrap());
        assert_eq!(map_char(c), expected);
    }
}

#[test]
fn modifiers_bits() {
    let m = ModifiersState { bits: SHIFT | CTRL };
    assert!(m.shift());
    assert!(m.ctrl());
    assert!(!m.alt());
    assert!(!m.logo());
    assert!(m.contains(ModifiersState::shift_only()));
    assert!(!m.contains(ModifiersState::alt_only()));
    assert!(m.contains(ModifiersState::empty()));
}

#[test]
fn binding_triggers_on_key_mods_and_mode() {
    let b: KeyBinding = Binding::new(
        Key::KeyCode(KeyCode::I),
        ModifiersState::empty(),
        Mode::Normal,
        Mode::NoMode,
        vec![Action::SetMode(Mode::Insert)],
    );
    assert!(b.is_triggered_by(Mode::Normal, ModifiersState::empty(), &Key::KeyCode(KeyCode::I)));
    assert!(!b.is_triggered_by(Mode::Insert, ModifiersState::empty(), &Key::KeyCode(KeyCode::I)));
    assert!(!b.is_triggered_by(Mode::Normal, ModifiersState::shift_only(), &Key::KeyCode(KeyCode::I)));
    assert!(!b.is_triggered_by(Mode::Normal, ModifiersState::empty(), &Key::KeyCode(KeyCode::J)));
    let esc: KeyBinding = Binding::new(
        Key::KeyCode(KeyCode::Escape),
        ModifiersState::empty(),
        Mode::NoMode,
        Mode::Normal,
        vec![Action::SetMode(Mode::Normal)],
    );
    assert!(esc.is_triggered_by(Mode::Insert, ModifiersState::empty(), &Key::KeyCode(KeyCode::Escape)));
    assert!(!esc.is_triggered_by(Mode::Normal, ModifiersState::empty(), &Key::KeyCode(KeyCode::Escape)));
}

fn key_actions(bindings: &Vec<KeyBinding>, mode: Mode, mods: ModifiersState, key: KeyCode) -> Vec<Action> {
    let none: Vec<MouseBinding> = vec![];
    acquire_input_actions(bindings, &none, mode, mods, Some(Key::KeyCode(key)), None)
}

#[test]
fn default_bindings_modes() {
    let b = default_key_bindings();
    assert_eq!(b.len(), 159);
    assert_eq!(key_actions(&b, Mode::Normal, ModifiersState::empty(), KeyCode::I), vec![Action::SetMode(Mode::Insert)]);
    assert_eq!(
        key_actions(&b, Mode::Visual, ModifiersState::empty(), KeyCode::Escape),
        vec![Action::CollapseSelections, Action::SetMode(Mode::Normal)]
    );
    assert_eq!(key_actions(&b, Mode::Normal, ModifiersState::empty(), KeyCode::Escape), vec![]);
    assert_eq!(
        key_actions(&b, Mode::Normal, ModifiersState { bits: SHIFT }, KeyCode::A),
        vec![Action::Move(Motion::End, Quantity::Line), Action::SetMode(Mode::Insert)]
    );
}

#[test]
fn default_bindings_typing() {
    let b = default_key_bindings();
    assert_eq!(key_actions(&b, Mode::Insert, ModifiersState::empty(), KeyCode::A), vec![Action::InsertChars("a".into())]);
    assert_eq!(key_actions(&b, Mode::Insert, ModifiersState { bits: SHIFT }, KeyCode::A), vec![Action::InsertChars("A".into())]);
    assert_eq!(key_actions(&b, Mode::Insert, ModifiersState { bits: SHIFT }, KeyCode::Key9), vec![Action::InsertChars("(".into())]);
    assert_eq!(key_actions(&b, Mode::Insert, ModifiersState::empty(), KeyCode::Key9), vec![Action::InsertChars("9".into())]);
    assert_eq!(key_actions(&b, Mode::Insert, ModifiersState::empty(), KeyCode::Space), vec![Action::InsertChars(" ".into())]);
    assert_eq!(key_actions(&b, Mode::Normal, ModifiersState::empty(), KeyCode::A), vec![Action::Move(Motion::Forward, Quantity::Character), Action::SetMode(Mode::Insert)]);
    assert_eq!(key_actions(&b, Mode::Insert, ModifiersState { bits: CTRL }, KeyCode::Left), vec![Action::Move(Motion::Backward, Quantity::Word)]);
}

#[test]
fn mouse_bindings_fire_after_keys() {
    let keys: Vec<KeyBinding> = vec![Binding::new(
        Key::KeyCode(KeyCode::D),
        ModifiersState::empty(),
        Mode::NoMode,
        Mode::NoMode,
        vec![Action::Undo],
    )];
    let mouse: Vec<MouseBinding> = vec![Binding::new(
        MouseButton::Left,
        ModifiersState::empty(),
        Mode::NoMode,
        Mode::NoMode,
        vec![Action::SelectAll],
    )];
    let actions = acquire_input_actions(
        &keys,
        &mouse,
        Mode::Normal,
        ModifiersState::empty(),
        Some(Key::KeyCode(KeyCode::D)),
        Some(MouseButton::Left),
    );
    assert_eq!(actions, vec![Action::Undo, Action::SelectAll]);
    let none = acquire_input_actions(&keys, &mouse, Mode::Normal, ModifiersState::empty(), None, None);
    assert_eq!(none, vec![]);
}

#[test]
fn keyboard_state_follows_events() {
    let mut s = KeyboardState::new();
    let press = KeyEvent::KeyboardInput(KeyboardInput {
        scancode: 0x02,
        state: ElementState::Pressed,
        virtual_keycode: None,
    });
    assert!(s.update(press));
    assert_eq!(s.key, Some(Key::KeyCode(KeyCode::Key1)));
    assert!(!s.update(press));
    let other = KeyEvent::KeyboardInput(KeyboardInput {
        scancode: 0x99,
        state: ElementState::Pressed,
        virtual_keycode: Some(KeyCode::Q),
    });
    s.update(other);
    assert_eq!(s.key, Some(Key::KeyCode(KeyCode::Q)));
    let unknown = KeyEvent::KeyboardInput(KeyboardInput {
        scancode: 0x99,
        state: ElementState::Pressed,
        virtual_keycode: None,
    });
    s.update(unknown);
    assert_eq!(s.key, Some(Key::ScanCode(0x99)));
    let release = KeyEvent::KeyboardInput(KeyboardInput {
        scancode: 0x99,
        state: ElementState::Released,
        virtual_keycode: None,
    });
    assert!(s.update(release));
    assert_eq!(s.key, None);
    assert!(s.update(KeyEvent::ModifiersChanged(ModifiersState { bits: SHIFT })));
    assert!(s.modifiers.shift());
    assert!(!s.update(KeyEvent::Other));
}

#[test]
fn function_keys_set_themes_and_toggle_line_numbers() {
    let b = default_key_bindings();
    let none = ModifiersState::empty();
    for mode in [Mode::Normal, Mode::Insert, Mode::Visual] {
        assert_eq!(key_actions(&b, mode, none, KeyCode::F5), vec![Action::ToggleLineNumbers]);
        assert_eq!(
            key_actions(&b, mode, none, KeyCode::F1),
            vec![Action::SetTheme { theme_name: "Solarized (dark)".to_string() }]
        );
    }
    assert_eq!(
        key_actions(&b, Mode::Normal, none, KeyCode::F2),
        vec![Action::SetTheme { theme_name: "Solarized (light)".to_string() }]
    );
    assert_eq!(
        key_actions(&b, Mode::Normal, none, KeyCode::F3),
        vec![Action::SetTheme { theme_name: "InspiredGitHub".to_string() }]
    );
    assert_eq!(key_actions(&b, Mode::Normal, none, KeyCode::F4), vec![]);
}

#[test]
fn select_binding_picks_the_first_that_fires() {
    let b = default_key_bindings();
    let none = ModifiersState::empty();
    // Escape in the visual mode fires two bindings; the first collapses the selections
    let i = select_binding(&b, Mode::Visual, none, &Key::KeyCode(KeyCode::Escape)).unwrap();
    assert_eq!(b[i].actions, vec![Action::CollapseSelections]);
    let j = select_binding(&b, Mode::Insert, none, &Key::KeyCode(KeyCode::Escape)).unwrap();
    assert_eq!(b[j].actions, vec![Action::SetMode(Mode::Normal)]);
    assert!(i < j);
    assert_eq!(select_binding(&b, Mode::Normal, none, &Key::KeyCode(KeyCode::Escape)), None);
    assert_eq!(select_binding(&b, Mode::Normal, none, &Key::KeyCode(KeyCode::F4)), None);
}

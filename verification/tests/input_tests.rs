use ndoc::commands::CommandsRegistry;
use ndoc::editor_input::{window_keyboard_input, Input, InputCommand, InputMotion};
use ndoc::rope_utils::{next_grapheme_boundary, prev_grapheme_boundary};
use ndoc::settings::Settings;
use ndoc::shortcut::{Key, ModifiersState, NamedKey, Shortcut};
use ndoc::widgets::{color_from_str, Color};

fn ctrl() -> ModifiersState {
    ModifiersState { shift: false, control: true, alt: false, super_key: false }
}

fn none() -> ModifiersState {
    ModifiersState { shift: false, control: false, alt: false, super_key: false }
}

fn char_of(k: &Key) -> Option<&str> {
    match k {
        Key::Character(s) => Some(s.as_str()),
        Key::Named(_) => None,
    }
}

fn bound_to(b: &[(Shortcut, usize)], c: &str, m: ModifiersState) -> Option<usize> {
    b.iter().find(|(s, _)| char_of(&s.key) == Some(c) && s.modifiers == m).map(|(_, i)| *i)
}

#[test]
fn color_from_str_reads_rgb_and_rgba() {
    assert_eq!(color_from_str("#ff8000"), Some(Color { r: 255, g: 128, b: 0, a: 255 }));
    assert_eq!(color_from_str("#0A0b0C80"), Some(Color { r: 10, g: 11, b: 12, a: 128 }));
}

#[test]
fn color_from_str_refuses_other_text() {
    assert_eq!(color_from_str("ff8000"), None);
    assert_eq!(color_from_str("#fff"), None);
    assert_eq!(color_from_str("#gg0000"), None);
    assert_eq!(color_from_str("#ff80001"), None);
    assert_eq!(color_from_str("#ff8000zz"), None);
    assert_eq!(color_from_str(""), None);
}

#[test]
fn register_lists_the_commands() {
    let r = CommandsRegistry::register();
    assert_eq!(r.view.len(), 9);
    assert_eq!(r.view[1], "editor.undo");
    assert_eq!(r.window.len(), 8);
    assert_eq!(r.window[7], "window.show_all_commands");
    assert!(r.view_shortcut.is_empty());
    assert!(r.window_shortcut.is_empty());
}

#[test]
fn bind_shortcuts_binds_the_default_settings() {
    let mut r = CommandsRegistry::register();
    let settings = Settings::load(None);
    r.bind_shortcuts(&settings);
    assert_eq!(r.view_shortcut.len(), 7);
    assert_eq!(r.window_shortcut.len(), 7);
    assert_eq!(bound_to(&r.view_shortcut, "g", ctrl()), Some(0));
    assert_eq!(bound_to(&r.view_shortcut, "z", ctrl()), Some(1));
    assert_eq!(bound_to(&r.view_shortcut, "y", ctrl()), Some(2));
    assert_eq!(bound_to(&r.view_shortcut, "s", ctrl()), Some(3));
    assert_eq!(bound_to(&r.window_shortcut, "n", ctrl()), Some(0));
    assert_eq!(bound_to(&r.window_shortcut, "o", ctrl()), Some(3));
    assert_eq!(bound_to(&r.view_shortcut, "o", ctrl()), None);
}

#[test]
fn bind_shortcuts_twice_keeps_one_binding_per_shortcut() {
    let mut r = CommandsRegistry::register();
    let settings = Settings::load(None);
    r.bind_shortcuts(&settings);
    r.bind_shortcuts(&settings);
    assert_eq!(r.view_shortcut.len(), 7);
    assert_eq!(r.window_shortcut.len(), 7);
}

#[test]
fn input_moves_deletes_and_inserts() {
    let mut input = Input::new();
    let r = input.keyboard_input(true, &Key::Named(NamedKey::ArrowLeft), None, none());
    assert!(matches!(r, Some(InputCommand::Motion(InputMotion::Previous))));
    assert!(input.redraw);
    let r = input.keyboard_input(true, &Key::Named(NamedKey::Backspace), None, none());
    assert!(matches!(r, Some(InputCommand::Backspace)));
    assert!(!input.redraw);
    let r = input.keyboard_input(true, &Key::Named(NamedKey::Delete), None, none());
    assert!(matches!(r, Some(InputCommand::Delete)));
    match input.keyboard_input(true, &Key::Character("a".to_string()), Some("a"), none()) {
        Some(InputCommand::InsertText(t)) => assert_eq!(t, "a"),
        other => panic!("unexpected {:?}", other),
    }
}

#[test]
fn input_ignores_released_keys_and_shortcuts() {
    let mut input = Input::new();
    assert!(input.keyboard_input(false, &Key::Named(NamedKey::ArrowLeft), None, none()).is_none());
    assert!(input.keyboard_input(true, &Key::Character("a".to_string()), Some("a"), ctrl()).is_none());
    assert!(!input.redraw);
}

#[test]
fn window_keyboard_input_finds_the_binding() {
    let bindings = vec![
        Shortcut { key: Key::Character("n".to_string()), modifiers: ctrl() },
        Shortcut { key: Key::Character("o".to_string()), modifiers: ctrl() },
    ];
    let o = Key::Character("o".to_string());
    assert_eq!(window_keyboard_input(true, true, &o, ctrl(), &bindings), (Some(1), true));
    let q = Key::Character("q".to_string());
    assert_eq!(window_keyboard_input(true, true, &q, ctrl(), &bindings), (None, false));
    assert_eq!(window_keyboard_input(true, true, &o, none(), &bindings), (None, false));
    assert_eq!(window_keyboard_input(true, false, &o, ctrl(), &bindings), (None, false));
    assert_eq!(window_keyboard_input(false, true, &o, ctrl(), &bindings), (None, true));
}

#[test]
fn grapheme_boundaries_in_multibyte_text() {
    let s = "ae\u{301}b";
    assert_eq!(next_grapheme_boundary(s, 0), 1);
    assert_eq!(next_grapheme_boundary(s, 1), 3);
    assert_eq!(next_grapheme_boundary(s, 3), 4);
    assert_eq!(next_grapheme_boundary(s, 4), 4);
    assert_eq!(prev_grapheme_boundary(s, 4), 3);
    assert_eq!(prev_grapheme_boundary(s, 3), 1);
    assert_eq!(prev_grapheme_boundary(s, 0), 0);
    let t = "日本\u{1F44D}\u{1F3FD}x";
    assert_eq!(next_grapheme_boundary(t, 0), 1);
    assert_eq!(next_grapheme_boundary(t, 2), 4);
    assert_eq!(prev_grapheme_boundary(t, 4), 2);
    assert_eq!(prev_grapheme_boundary(t, 5), 4);
}

use ndoc::settings::{OptSettings, Settings};
use ndoc::shortcut::{event_match, Key, ModifiersState, NamedKey, ParseError, Shortcut};
use ndoc::file_info::Indentation;

fn ctrl() -> ModifiersState {
    ModifiersState { shift: false, control: true, alt: false, super_key: false }
}

fn char_key(s: &Shortcut) -> String {
    match &s.key {
        Key::Character(c) => c.clone(),
        Key::Named(_) => panic!("named key"),
    }
}

#[test]
fn shortcut_from_string() {
    let s = Shortcut::from_str("Ctrl+s").unwrap();
    assert!(s.same_as(&Shortcut::character("s", ctrl())));
}

#[test]
fn shortcut_from_string_with_shift() {
    let s = Shortcut::from_str("Ctrl+Shift+s").unwrap();
    let m = ModifiersState { shift: true, control: true, alt: false, super_key: false };
    assert!(s.same_as(&Shortcut::character("S", m)));
}

#[test]
fn shortcut_bad_modifier() {
    match Shortcut::from_str("Crtl+s") {
        Err(ParseError::InvalidModifiers(m)) => assert_eq!(m, "Crtl".to_string()),
        other => panic!("unexpected {:?}", other),
    }
}

#[test]
fn shortcut_from_macro() {
    // The shortcuts written as Ctrl+s, Ctrl+Shift+s and Ctrl+Alt+s.
    let a = Shortcut::character("s", ctrl());
    assert!(a.same_as(&Shortcut::character("s", ModifiersState { shift: false, control: true, alt: false, super_key: false })));
    let b = Shortcut::character("S", ModifiersState { shift: true, control: true, alt: false, super_key: false });
    assert_eq!(char_key(&b), "S");
    assert!(b.modifiers.shift && b.modifiers.control);
    let c = Shortcut::character("s", ModifiersState { shift: false, control: true, alt: true, super_key: false });
    assert!(c.modifiers.alt && c.modifiers.control && !c.modifiers.shift);
}

#[test]
fn shortcut_errors() {
    assert!(matches!(Shortcut::from_str("s"), Err(ParseError::InvalidShortcut(t)) if t == "s"));
    assert!(matches!(Shortcut::from_str("Ctrl+"), Err(ParseError::InvalidKey(t)) if t.is_empty()));
    assert!(matches!(Shortcut::from_str("+x"), Err(ParseError::InvalidModifiers(t)) if t.is_empty()));
}

#[test]
fn shortcut_all_modifiers() {
    let s = Shortcut::from_str("Alt+Super+Ctrl+k").unwrap();
    assert!(s.modifiers.alt && s.modifiers.super_key && s.modifiers.control && !s.modifiers.shift);
    assert_eq!(char_key(&s), "k");
}

#[test]
fn shortcut_setting_string_round_trip() {
    let m = ModifiersState { shift: false, control: true, alt: true, super_key: false };
    let s = Shortcut::character("q", m);
    let text = s.to_setting_string().unwrap();
    assert_eq!(text, "Alt+Ctrl+q");
    let back = Shortcut::from_str(&text).unwrap();
    assert!(back.same_as(&s));
}

#[test]
fn setting_string_of_named_key_is_none() {
    let s = Shortcut::named(NamedKey::Tab, ctrl());
    assert!(s.to_setting_string().is_none());
}

#[test]
fn super_writes_meta() {
    let m = ModifiersState { shift: false, control: false, alt: false, super_key: true };
    assert_eq!(Shortcut::character("x", m).to_setting_string().unwrap(), "Meta+x");
}

#[test]
fn event_match_needs_same_key_and_modifiers() {
    let s = Shortcut::character("s", ctrl());
    assert!(event_match(&Key::Character("s".to_string()), ctrl(), &s));
    assert!(!event_match(&Key::Character("s".to_string()), ModifiersState::empty(), &s));
    assert!(!event_match(&Key::Named(NamedKey::Tab), ctrl(), &s));
}

#[test]
fn modifiers_union_and_contains() {
    let a = ModifiersState { shift: true, control: false, alt: false, super_key: false };
    let u = a.union(ctrl());
    assert!(u.contains(a) && u.contains(ctrl()));
    assert!(!a.contains(ctrl()));
    assert!(u.possible_shortcut());
    assert!(!a.possible_shortcut());
}

#[test]
fn default_settings_bind_commands() {
    let s = Settings::default();
    assert_eq!(s.shortcuts.len(), 14);
    assert_eq!(s.indentation, Indentation::Space(4));
    assert_eq!(s.theme, "base16-eighties.dark");
    let g = s.shortcut_for("editor.goto_line").unwrap();
    assert!(g.same_as(&Shortcut::character("g", ctrl())));
    let n = s.shortcut_for("window.nextdoc").unwrap();
    assert!(n.same_as(&Shortcut::named(NamedKey::Tab, ctrl())));
    assert!(s.shortcut_for("nothing").is_none());
}

#[test]
fn load_without_file_gives_defaults() {
    let s = Settings::load(None);
    assert_eq!(s.shortcuts.len(), 14);
    assert_eq!(s.theme, "base16-eighties.dark");
}

#[test]
fn load_merges_missing_parts() {
    let o = OptSettings {
        shortcuts: Some(vec![("editor.undo".to_string(), Shortcut::character("u", ctrl()))]),
        indentation: None,
        theme: Some("InspiredGitHub".to_string()),
    };
    let s = Settings::load(Some(o));
    assert_eq!(s.shortcuts.len(), 1);
    assert_eq!(s.indentation, Indentation::Space(4));
    assert_eq!(s.theme, "InspiredGitHub");
    assert!(s.shortcut_for("editor.undo").unwrap().same_as(&Shortcut::character("u", ctrl())));
    assert!(s.shortcut_for("editor.redo").is_none());
}

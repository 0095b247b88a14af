use ndoc::filter::{Filter, FilteredList};
use ndoc::palette::{PaletteBuilder, PaletteOutcome, PaletteState};
use ndoc::shortcut::{Key, ModifiersState, NamedKey, Shortcut};

fn strings(v: &[&str]) -> Vec<String> {
    v.iter().map(|s| s.to_string()).collect()
}

fn none() -> ModifiersState {
    ModifiersState::empty()
}

#[test]
fn filter_without_pattern_keeps_order() {
    let f = Filter::new(strings(&["b", "a", "c"]), "", 1);
    let texts: Vec<&str> = f.filtered_items.iter().map(|i| i.text.as_str()).collect();
    assert_eq!(texts, vec!["b", "a", "c"]);
    assert_eq!(f.selected_idx, Some(1));
    assert_eq!(f.selected_item().unwrap().text, "a");
}

#[test]
fn filter_clamps_initial_selection() {
    let f = Filter::new(strings(&["x", "y"]), "", 9);
    assert_eq!(f.selected_idx, Some(1));
    let e = Filter::new(Vec::new(), "", 3);
    assert_eq!(e.selected_idx, None);
    assert!(e.selected_item().is_none());
}

#[test]
fn filter_pattern_drops_non_matches_and_ranks() {
    let mut f = Filter::new(strings(&["open file", "save", "save as", "close"]), "", 0);
    f.set_pattern("sa");
    let texts: Vec<&str> = f.filtered_items.iter().map(|i| i.text.as_str()).collect();
    assert_eq!(texts.len(), 2);
    assert!(texts.contains(&"save") && texts.contains(&"save as"));
    for w in f.filtered_items.windows(2) {
        assert!(w[0].score > w[1].score || (w[0].score == w[1].score && w[0].index < w[1].index));
    }
    assert_eq!(f.selected_idx, Some(0));
    f.set_pattern("zzz");
    assert!(f.filtered_items.is_empty());
    assert_eq!(f.selected_idx, None);
    f.set_pattern("");
    assert_eq!(f.filtered_items.len(), 4);
}

#[test]
fn next_and_prev_wrap_around() {
    let mut f = Filter::new(strings(&["a", "b", "c"]), "", 0);
    f.prev();
    assert_eq!(f.selected_idx, Some(2));
    f.next();
    assert_eq!(f.selected_idx, Some(0));
    f.next();
    f.next();
    f.next();
    assert_eq!(f.selected_idx, Some(0));
    f.next();
    f.prev();
    assert_eq!(f.selected_idx, Some(0));
}

#[test]
fn filtered_list_click_and_hover() {
    let mut l = FilteredList::new(strings(&["a", "b"]), "", 0, (), 7);
    l.hover(1);
    assert_eq!(l.hovered_idx, Some(1));
    l.unhover();
    assert_eq!(l.hovered_idx, None);
    assert_eq!(l.click(1), Some((1, "b".to_string())));
    assert_eq!(l.filter.selected_idx, Some(1));
    assert_eq!(l.click(5), None);
    assert_eq!(l.owner_id, 7);
}

#[test]
fn palette_state_builder() {
    let p = PaletteState::<u8, ()>::new((), 3)
        .description("pick")
        .items(strings(&["one", "two", "three"]))
        .selected_idx(1)
        .accept(42)
        .owner(9);
    assert!(!p.active());
    let mut shown = p.show();
    assert_eq!(shown.description, "pick");
    assert_eq!(shown.owner_id, 9);
    assert!(shown.has_items);
    assert_eq!(shown.list.action, Some(42));
    assert_eq!(shown.list.filter.selected_idx, Some(1));
    let (o, acc) = shown.key_input(false, &Key::Named(NamedKey::ArrowDown), none());
    assert_eq!(o, PaletteOutcome::Handled);
    assert!(acc.is_none());
    assert_eq!(shown.list.filter.selected_idx, Some(2));
    let (o, acc) = shown.key_input(false, &Key::Named(NamedKey::Enter), none());
    assert_eq!(o, PaletteOutcome::Close);
    assert_eq!(acc, Some((2, "three".to_string())));
    let (o, acc) = shown.key_input(false, &Key::Named(NamedKey::Escape), none());
    assert_eq!(o, PaletteOutcome::Close);
    assert!(acc.is_none());
}

#[test]
fn palette_free_text_accepts_input() {
    let mut p = PaletteState::<u8, ()>::new((), 1).show();
    assert!(!p.has_items);
    p.set_input("42");
    let (o, acc) = p.key_input(false, &Key::Named(NamedKey::Enter), none());
    assert_eq!(o, PaletteOutcome::Close);
    assert_eq!(acc, Some((0, "42".to_string())));
}

#[test]
fn palette_step_keys_and_control_release() {
    let ctrl = ModifiersState { shift: false, control: true, alt: false, super_key: false };
    let ctrl_shift = ModifiersState { shift: true, control: true, alt: false, super_key: false };
    let mut p = PaletteState::<u8, ()>::new((), 1)
        .items(strings(&["a", "b", "c"]))
        .next_key(Shortcut::named(NamedKey::Tab, ctrl))
        .prev_key(Shortcut::named(NamedKey::Tab, ctrl_shift))
        .selected_idx(1)
        .show();
    let (o, _) = p.key_input(false, &Key::Named(NamedKey::Tab), ctrl);
    assert_eq!(o, PaletteOutcome::Handled);
    assert_eq!(p.list.filter.selected_idx, Some(2));
    let (o, _) = p.key_input(false, &Key::Named(NamedKey::Tab), ctrl_shift);
    assert_eq!(o, PaletteOutcome::Handled);
    assert_eq!(p.list.filter.selected_idx, Some(1));
    let (o, acc) = p.key_input(true, &Key::Named(NamedKey::Control), none());
    assert_eq!(o, PaletteOutcome::Close);
    assert_eq!(acc, Some((1, "b".to_string())));
    let (o, acc) = p.key_input(true, &Key::Character("x".to_string()), none());
    assert_eq!(o, PaletteOutcome::Ignored);
    assert!(acc.is_none());
}

#[test]
fn control_release_closes_a_palette_with_nothing_selected() {
    let ctrl = ModifiersState { shift: false, control: true, alt: false, super_key: false };
    let mut p = PaletteState::<u8, ()>::new((), 1)
        .items(strings(&["a", "b"]))
        .next_key(Shortcut::named(NamedKey::Tab, ctrl))
        .show();
    p.set_input("zzz");
    let (o, acc) = p.key_input(true, &Key::Named(NamedKey::Control), none());
    assert_eq!(o, PaletteOutcome::Close);
    assert!(acc.is_none());
}

#[test]
fn palette_typing_filters() {
    let mut p = PaletteState::<u8, ()>::new((), 1).items(strings(&["alpha", "beta"])).show();
    p.set_input("bet");
    assert_eq!(p.list.filter.filtered_items.len(), 1);
    let (_, acc) = p.key_input(false, &Key::Named(NamedKey::Enter), none());
    assert_eq!(acc, Some((1, "beta".to_string())));
}

#[test]
fn list_palette_filters_by_substring() {
    let items = vec![(10, "open".to_string()), (20, "close".to_string()), (30, "reopen".to_string())];
    let mut p = PaletteBuilder::new(5).description("docs").items(items).build(());
    assert_eq!(p.shown.len(), 3);
    assert_eq!(p.enter(), Some(10));
    p.arrow_down();
    assert_eq!(p.enter(), Some(20));
    p.arrow_up();
    p.arrow_up();
    assert_eq!(p.current, 0);
    p.set_query("open");
    assert_eq!(p.shown.len(), 2);
    p.arrow_down();
    p.arrow_down();
    assert_eq!(p.enter(), Some(30));
    p.set_query("zz");
    assert_eq!(p.enter(), None);
}

#[test]
fn free_palette_needs_text() {
    let mut p = PaletteBuilder::new(1).build(());
    assert_eq!(p.enter(), None);
    p.set_text("12");
    assert_eq!(p.enter(), Some("12".to_string()));
}

use ndoc::document::Document;
use ndoc::editor_input::{
    key_down_command, keyboard_input, mouse_down, mouse_drag, pointer_down, pointer_move, ClickInfo,
    CodeEditor, EditorCommand, KeyEventInfo, MainSelectionInfo, MouseButton, SelectionKind,
    TextEditorKind,
};
use ndoc::file_info::{Indentation, LineFeed};
use ndoc::rope_utils::{lines_of, str_contains};
use ndoc::doc_view::get_line_info;
use ndoc::scroll::{PxRect, ScrollController, UPoint, USize};
use ndoc::selection::{MoveDirection, Position};
use ndoc::shortcut::{Key, ModifiersState, NamedKey, Shortcut};
use ndoc::widgets::{color_syntect_to_peniko, CodeEditorColors, Color, ResizeHandle, StatusBar, StyleColors, ThemeColors};
use ropey::Rope;

fn m(shift: bool, control: bool, alt: bool) -> ModifiersState {
    ModifiersState { shift, control, alt, super_key: false }
}

fn controller() -> ScrollController {
    ScrollController::new(UPoint { x: 0, y: 0 }, USize { width: 100, height: 50 }, UPoint { x: 500, y: 500 }, 3)
}

#[test]
fn file_info() {
    let rope = Rope::from_str("\txxxx\txx\tx\txxx");
    assert_eq!(get_line_info(&rope, 0, 4), "    xxxx    xx  x   xxx");
}

#[test]
fn lines_of_follows_str_lines() {
    for s in ["", "a", "a\n", "a\r\nb", "a\n\nb\n", "x\r", "x\r\ny\r"] {
        let expected: Vec<String> = s.lines().map(|l| l.to_string()).collect();
        assert_eq!(lines_of(s), expected, "input {:?}", s);
    }
}

#[test]
fn str_contains_finds_substrings() {
    assert!(str_contains("reopen", "open"));
    assert!(str_contains("abc", ""));
    assert!(!str_contains("ab", "abc"));
    assert!(!str_contains("close", "open"));
}

#[test]
fn region_already_visible_keeps_scroll() {
    let mut c = controller();
    c.make_region_visible(PxRect { x: 10, y: 10, width: 20, height: 10 });
    assert_eq!(c.scroll, UPoint { x: 0, y: 0 });
}

#[test]
fn region_below_scrolls_down_and_twice_is_once() {
    let mut c = controller();
    let r = PxRect { x: 10, y: 120, width: 20, height: 10 };
    c.make_region_visible(r);
    assert_eq!(c.scroll, UPoint { x: 0, y: 80 });
    let once = c.scroll;
    c.make_region_visible(r);
    assert_eq!(c.scroll, once);
}

#[test]
fn region_before_scrolls_back_and_clamps() {
    let mut c = controller();
    c.scroll_to(UPoint { x: 50, y: 60 });
    c.make_region_visible(PxRect { x: -5, y: 30, width: 10, height: 5 });
    assert_eq!(c.scroll(), UPoint { x: 0, y: 30 });
    c.make_region_visible(PxRect { x: 900, y: 0, width: 10, height: 5 });
    assert_eq!(c.scroll().x, 500);
    assert_eq!(c.mouse_wheel(), 3);
}

#[test]
fn key_down_commands() {
    let cmd = key_down_command(Some("c"), &Key::Character("c".to_string()), m(false, true, false), true);
    assert!(matches!(cmd, Some(EditorCommand::Copy)));
    let cmd = key_down_command(Some("a"), &Key::Character("a".to_string()), m(false, false, false), true);
    assert!(matches!(cmd, Some(EditorCommand::InsertText(t)) if t == "a"));
    let cmd = key_down_command(Some("a"), &Key::Character("a".to_string()), m(false, true, false), true);
    assert!(cmd.is_none());
    let cmd = key_down_command(None, &Key::Named(NamedKey::ArrowDown), m(false, true, true), true);
    assert!(matches!(cmd, Some(EditorCommand::DuplicateSelection(MoveDirection::Down))));
    let cmd = key_down_command(None, &Key::Named(NamedKey::ArrowLeft), m(true, true, false), true);
    assert!(matches!(cmd, Some(EditorCommand::MoveWord(MoveDirection::Left, true))));
    let cmd = key_down_command(Some("\t"), &Key::Named(NamedKey::Tab), m(false, false, false), false);
    assert!(matches!(cmd, Some(EditorCommand::Indent(true))));
    let cmd = key_down_command(None, &Key::Named(NamedKey::Tab), m(true, false, false), true);
    assert!(matches!(cmd, Some(EditorCommand::Deindent)));
    let cmd = key_down_command(Some("S"), &Key::Character("S".to_string()), m(true, true, false), true);
    assert!(matches!(cmd, Some(EditorCommand::SaveAs)));
}

#[test]
fn pointer_commands() {
    let p = Position::new(1, 2);
    let (c, k) = pointer_down(2, p, SelectionKind::Char);
    assert!(matches!(c, Some(EditorCommand::SelectWord(q)) if q == p));
    assert_eq!(k, SelectionKind::Word);
    let (c, k) = pointer_down(4, p, SelectionKind::Line);
    assert!(matches!(c, Some(EditorCommand::SelectAll)));
    assert_eq!(k, SelectionKind::Line);
    assert!(matches!(pointer_move(SelectionKind::Line, p), EditorCommand::ExpandByLine(_)));
}

#[test]
fn click_counting() {
    let mut ci = ClickInfo::default();
    ci.update(MouseButton::Left, 1000);
    assert_eq!(ci.count, 0);
    ci.update(MouseButton::Left, 1200);
    assert_eq!(ci.count, 1);
    ci.update(MouseButton::Left, 1400);
    assert_eq!(ci.count, 2);
    ci.update(MouseButton::Left, 1800);
    assert_eq!(ci.count, 0);
    ci.update(MouseButton::Right, 1850);
    assert_eq!(ci.count, 0);
    let p = Position::new(0, 0);
    assert!(matches!(mouse_down(MouseButton::Left, &ci, p), Some(EditorCommand::SetMainSelection(_))));
    assert!(mouse_down(MouseButton::Right, &ci, p).is_none());
    ci.count = 1;
    assert!(matches!(mouse_drag(MouseButton::Left, &ci, p), Some(EditorCommand::ExpandByWord(_))));
    ci.count = 3;
    assert!(mouse_drag(MouseButton::Left, &ci, p).is_none());
}

#[test]
fn keyboard_input_of_code_editor() {
    let main = MainSelectionInfo { count: 1, collapsed: false, single_line: true };
    let bindings = vec![Shortcut::character("g", m(false, true, false))];
    let press = KeyEventInfo { pressed: true, text: Some("g".to_string()) };
    let (cmds, taken) = keyboard_input(true, true, TextEditorKind::Code, &press, &Key::Character("g".to_string()), m(false, true, false), false, &bindings, main);
    assert!(taken);
    assert!(matches!(cmds.as_slice(), [EditorCommand::RunBinding(0)]));
    let (cmds, taken) = keyboard_input(false, true, TextEditorKind::Code, &press, &Key::Character("g".to_string()), m(false, true, false), false, &bindings, main);
    assert!(!taken && cmds.is_empty());
    let esc = KeyEventInfo { pressed: true, text: None };
    let (cmds, taken) = keyboard_input(true, true, TextEditorKind::Code, &esc, &Key::Named(NamedKey::Escape), m(false, false, false), false, &bindings, main);
    assert!(taken);
    assert!(matches!(cmds.as_slice(), [EditorCommand::CollapseMainSelection]));
    let (cmds, taken) = keyboard_input(true, true, TextEditorKind::Input, &esc, &Key::Named(NamedKey::Escape), m(false, false, false), false, &bindings, main);
    assert!(!taken && cmds.is_empty());
    let x = KeyEventInfo { pressed: true, text: Some("x".to_string()) };
    let (cmds, taken) = keyboard_input(true, true, TextEditorKind::Code, &x, &Key::Character("x".to_string()), m(false, true, false), false, &bindings, main);
    assert!(!taken);
    assert!(matches!(cmds.as_slice(), [EditorCommand::Cut]));
    let (cmds, taken) = keyboard_input(true, true, TextEditorKind::Code, &x, &Key::Character("x".to_string()), m(false, false, false), false, &bindings, main);
    assert!(taken);
    assert!(matches!(cmds.as_slice(), [EditorCommand::InsertText(t)] if t == "x"));
    let left = KeyEventInfo { pressed: true, text: None };
    let (cmds, _) = keyboard_input(true, true, TextEditorKind::Code, &left, &Key::Named(NamedKey::ArrowLeft), m(true, true, false), true, &bindings, main);
    assert!(matches!(cmds.as_slice(), [EditorCommand::MoveWord(MoveDirection::Left, true)]));
}

#[test]
fn code_editor_toggles_search_panel() {
    let mut ce = CodeEditor::new(1, 2);
    assert!(ce.collapse_search_panel);
    let r = ce.keyboard_input(true, &Key::Character("f".to_string()), m(false, true, false));
    assert_eq!(r, Some(2));
    assert!(!ce.collapse_search_panel);
    let r = ce.keyboard_input(true, &Key::Character("f".to_string()), m(false, true, false));
    assert_eq!(r, Some(1));
    assert!(ce.keyboard_input(false, &Key::Character("f".to_string()), m(false, true, false)).is_none());
    assert_eq!(CodeEditor::search_up(0, 3), Some(2));
    assert_eq!(CodeEditor::search_down(2, 3), Some(0));
    assert_eq!(CodeEditor::search_down(0, 0), None);
    assert_eq!(CodeEditor::search_status(3, 1, 4), "2/4");
    assert_eq!(CodeEditor::search_status(3, 0, 0), "0/0");
    assert_eq!(CodeEditor::search_status(0, 0, 2), "");
}

#[test]
fn colors_fall_back_on_style() {
    let red = Color { r: 255, g: 0, b: 0, a: 255 };
    let grey = Color { r: 9, g: 9, b: 9, a: 255 };
    let theme = ThemeColors {
        foreground: Some(red),
        background: None,
        selection: None,
        selection_border: None,
        caret: None,
        gutter_foreground: None,
        gutter: None,
        find_highlight: None,
    };
    let style = StyleColors {
        text: grey,
        background: grey,
        selection_background: grey,
        selection_border: grey,
        cursor: grey,
        widget_background: grey,
        widget_text: grey,
        highlight: red,
        outline: grey,
    };
    let c = CodeEditorColors::get(TextEditorKind::Code, &theme, &style);
    assert_eq!(c.fg, red);
    assert_eq!(c.fg_gutter, red);
    assert_eq!(c.bg, grey);
    let i = CodeEditorColors::get(TextEditorKind::Input, &theme, &style);
    assert_eq!(i.fg, grey);
    assert_eq!(i.bg_selection, red);
    assert_eq!(i.fg_gutter, Color { r: 0, g: 0, b: 0, a: 255 });
    assert_eq!(color_syntect_to_peniko(red), red);
}

#[test]
fn status_bar_texts() {
    let mut d = Document::new(0, Indentation::Space(2), LineFeed::CRLF);
    let s = StatusBar::new(&d, None);
    assert_eq!(s.filename, "Untitled");
    assert_eq!(s.selection, "Ln 1, Col 1");
    assert_eq!(s.indent, "Spaces: 2");
    assert_eq!(s.eol, "CRLF");
    assert_eq!(s.encoding, "UTF-8");
    d.insert("ab");
    let s = StatusBar::new(&d, Some("a.txt"));
    assert_eq!(s.filename, "a.txt*");
    assert_eq!(s.selection, "Ln 1, Col 3");
    d.duplicate_selection(MoveDirection::Down);
    d.selections.push(d.selections[0]);
    let s = StatusBar::new(&d, Some("a.txt"));
    assert_eq!(s.selection, "2 selections");
}

#[test]
fn resize_handle_follows_drag() {
    let mut h = ResizeHandle::new(100);
    h.redraw(40);
    h.hover();
    assert!(h.highlighted());
    h.unhover();
    assert!(!h.highlighted());
    h.mouse_down();
    h.mouse_drag(60);
    assert_eq!(h.width, 100);
    assert!(h.dragged);
    h.mouse_up();
    assert_eq!(h.layout(30), (5, 30));
}

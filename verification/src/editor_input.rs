//! What the editors make of keys and clicks: each event is turned into
//! editing commands on the document, which the front-end then carries out.
use vstd::prelude::*;
use crate::selection::{MoveDirection, Position};
use crate::shortcut::{Key, KeyView, ModifiersState, NamedKey, Shortcut, ShortcutView, event_match};
use crate::rope_utils::str_eq;
use crate::file_info::{decimal, usize_to_string};

verus! {

/// An edit or motion asked of the document, or of the window around it.
#[derive(Debug)]
pub enum EditorCommand {
    Copy,
    Cut,
    Paste,
    Undo,
    Redo,
    Save,
    SaveAs,
    CloseDoc,
    InsertText(String),
    InsertNewline,
    DuplicateSelection(MoveDirection),
    MoveWord(MoveDirection, bool),
    Move(MoveDirection, bool),
    Delete,
    Backspace,
    Deindent,
    Indent(bool),
    End(bool),
    Home(bool),
    PageUp(bool),
    PageDown(bool),
    CancelMultiCursor,
    CollapseMainSelection,
    /// Run the command bound to the shortcut at this place of the bindings.
    RunBinding(usize),
    SetMainSelection(Position),
    MoveMainHead(Position),
    SelectWord(Position),
    SelectLine(usize),
    SelectAll,
    ExpandByWord(Position),
    ExpandByLine(Position),
}

pub enum EditorCommandView {
    Copy,
    Cut,
    Paste,
    Undo,
    Redo,
    Save,
    SaveAs,
    CloseDoc,
    InsertText(Seq<char>),
    InsertNewline,
    DuplicateSelection(MoveDirection),
    MoveWord(MoveDirection, bool),
    Move(MoveDirection, bool),
    Delete,
    Backspace,
    Deindent,
    Indent(bool),
    End(bool),
    Home(bool),
    PageUp(bool),
    PageDown(bool),
    CancelMultiCursor,
    CollapseMainSelection,
    RunBinding(usize),
    SetMainSelection(Position),
    MoveMainHead(Position),
    SelectWord(Position),
    SelectLine(usize),
    SelectAll,
    ExpandByWord(Position),
    ExpandByLine(Position),
}

impl View for EditorCommand {
    type V = EditorCommandView;

    open spec fn view(&self) -> EditorCommandView {
        match self {
            EditorCommand::Copy => EditorCommandView::Copy,
            EditorCommand::Cut => EditorCommandView::Cut,
            EditorCommand::Paste => EditorCommandView::Paste,
            EditorCommand::Undo => EditorCommandView::Undo,
            EditorCommand::Redo => EditorCommandView::Redo,
            EditorCommand::Save => EditorCommandView::Save,
            EditorCommand::SaveAs => EditorCommandView::SaveAs,
            EditorCommand::CloseDoc => EditorCommandView::CloseDoc,
            EditorCommand::InsertText(t) => EditorCommandView::InsertText(t@),
            EditorCommand::InsertNewline => EditorCommandView::InsertNewline,
            EditorCommand::DuplicateSelection(d) => EditorCommandView::DuplicateSelection(*d),
            EditorCommand::MoveWord(d, s) => EditorCommandView::MoveWord(*d, *s),
            EditorCommand::Move(d, s) => EditorCommandView::Move(*d, *s),
            EditorCommand::Delete => EditorCommandView::Delete,
            EditorCommand::Backspace => EditorCommandView::Backspace,
            EditorCommand::Deindent => EditorCommandView::Deindent,
            EditorCommand::Indent(b) => EditorCommandView::Indent(*b),
            EditorCommand::End(s) => EditorCommandView::End(*s),
            EditorCommand::Home(s) => EditorCommandView::Home(*s),
            EditorCommand::PageUp(s) => EditorCommandView::PageUp(*s),
            EditorCommand::PageDown(s) => EditorCommandView::PageDown(*s),
            EditorCommand::CancelMultiCursor => EditorCommandView::CancelMultiCursor,
            EditorCommand::CollapseMainSelection => EditorCommandView::CollapseMainSelection,
            EditorCommand::RunBinding(i) => EditorCommandView::RunBinding(*i),
            EditorCommand::SetMainSelection(p) => EditorCommandView::SetMainSelection(*p),
            EditorCommand::MoveMainHead(p) => EditorCommandView::MoveMainHead(*p),
            EditorCommand::SelectWord(p) => EditorCommandView::SelectWord(*p),
            EditorCommand::SelectLine(l) => EditorCommandView::SelectLine(*l),
            EditorCommand::SelectAll => EditorCommandView::SelectAll,
            EditorCommand::ExpandByWord(p) => EditorCommandView::ExpandByWord(*p),
            EditorCommand::ExpandByLine(p) => EditorCommandView::ExpandByLine(*p),
        }
    }
}

/// Which kind of text editor: a code editor, or a one-line input.
#[derive(Debug, Clone, Copy, PartialEq, Eq, Structural)]
pub enum TextEditorKind {
    Code,
    Input,
}

/// What the selection is extended by while the pointer drags.
#[derive(Debug, Clone, Copy, PartialEq, Eq, Structural)]
pub enum SelectionKind {
    Char,
    Word,
    Line,
}

/// A request that a window hands to itself: run the command with this id.
#[derive(Debug)]
pub enum WindowUpdateCommand {
    LaunchCommand(String),
}

/// The buttons of a pointer.
#[derive(Debug, Clone, Copy, PartialEq, Eq, Structural)]
pub enum MouseButton {
    Left,
    Right,
    Middle,
    Back,
    Forward,
    Other(u16),
}

/// The clicks counted so far: the number of quick repeats of the last
/// click, when it happened (in milliseconds) and with which button.
#[derive(Debug, Clone, Copy, Default)]
pub struct ClickInfo {
    pub count: usize,
    pub last_click: Option<u64>,
    pub last_button: Option<MouseButton>,
}

impl ClickInfo {
    /// Counts a click of `button` at `now` (milliseconds): a repeat of the
    /// last click when it came with the same button less than 300 ms
    /// after it, a first click otherwise.
    pub fn update(&mut self, button: MouseButton, now: u64)
        requires
            old(self).count < usize::MAX,
        ensures
            final(self).count == (match (old(self).last_click, old(self).last_button) {
                (Some(t), Some(b)) => if (if now >= t {
                    now - t
                } else {
                    0
                }) < 300 && b == button {
                    old(self).count + 1
                } else {
                    0
                },
                _ => 0,
            }),
            final(self).last_click == Some(now),
            final(self).last_button == Some(button),
    {
        let repeat = match (self.last_click, self.last_button) {
            (Some(t), Some(b)) => now.saturating_sub(t) < 300 && b == button,
            _ => false,
        };
        if repeat {
            self.count = self.count + 1;
        } else {
            self.count = 0;
        }
        self.last_click = Some(now);
        self.last_button = Some(button);
    }
}

/// A control character: general category Cc (`char::is_control`).
pub open spec fn is_control_char(c: char) -> bool {
    (c as u32) <= 0x1f || (0x7f <= (c as u32) && (c as u32) <= 0x9f)
}

pub fn is_control(c: char) -> (r: bool)
    ensures
        r == is_control_char(c),
{
    let n = c as u32;
    n <= 0x1f || (0x7f <= n && n <= 0x9f)
}

/// Some char of `t` is not a control character.
pub open spec fn has_printable(t: Seq<char>) -> bool {
    exists|i: int| 0 <= i < t.len() && !is_control_char(#[trigger] t[i])
}

fn printable(t: &str) -> (r: bool)
    ensures
        r == has_printable(t@),
{
    let c = crate::rope_utils::chars_of(t);
    for i in 0..c.len()
        invariant
            c@ == t@,
            forall|k: int| 0 <= k < i ==> is_control_char(#[trigger] c@[k]),
    {
        if !is_control(c[i]) {
            return true;
        }
    }
    false
}

pub open spec fn named(k: KeyView, n: NamedKey) -> bool {
    k == KeyView::Named(n)
}

/// The command of a key pressed in the editor of the desktop front-end
/// that types no text.
pub open spec fn spec_key_down_named(
    key: KeyView,
    m: ModifiersState,
    single_line: bool,
) -> Option<EditorCommandView> {
    if named(key, NamedKey::ArrowDown) && m.control && m.alt {
        Some(EditorCommandView::DuplicateSelection(MoveDirection::Down))
    } else if named(key, NamedKey::ArrowUp) && m.control && m.alt {
        Some(EditorCommandView::DuplicateSelection(MoveDirection::Up))
    } else if named(key, NamedKey::ArrowLeft) && m.control {
        Some(EditorCommandView::MoveWord(MoveDirection::Left, m.shift))
    } else if named(key, NamedKey::ArrowRight) && m.control {
        Some(EditorCommandView::MoveWord(MoveDirection::Right, m.shift))
    } else if named(key, NamedKey::ArrowLeft) {
        Some(EditorCommandView::Move(MoveDirection::Left, m.shift))
    } else if named(key, NamedKey::ArrowRight) {
        Some(EditorCommandView::Move(MoveDirection::Right, m.shift))
    } else if named(key, NamedKey::ArrowDown) {
        Some(EditorCommandView::Move(MoveDirection::Down, m.shift))
    } else if named(key, NamedKey::ArrowUp) {
        Some(EditorCommandView::Move(MoveDirection::Up, m.shift))
    } else if named(key, NamedKey::Delete) {
        Some(EditorCommandView::Delete)
    } else if named(key, NamedKey::Backspace) {
        Some(EditorCommandView::Backspace)
    } else if named(key, NamedKey::Tab) && m.shift {
        Some(EditorCommandView::Deindent)
    } else if named(key, NamedKey::Tab) {
        Some(EditorCommandView::Indent(!single_line))
    } else if named(key, NamedKey::End) {
        Some(EditorCommandView::End(m.shift))
    } else if named(key, NamedKey::Home) {
        Some(EditorCommandView::Home(m.shift))
    } else if named(key, NamedKey::Enter) {
        Some(EditorCommandView::InsertNewline)
    } else if named(key, NamedKey::PageUp) {
        Some(EditorCommandView::PageUp(m.shift))
    } else if named(key, NamedKey::PageDown) {
        Some(EditorCommandView::PageDown(m.shift))
    } else if named(key, NamedKey::Escape) {
        Some(EditorCommandView::CancelMultiCursor)
    } else {
        None
    }
}

/// The command of a key pressed in the editor of the desktop front-end:
/// `text` is what the key types, `single_line` whether the main selection
/// lies on one line. `None`: the key is passed on.
pub open spec fn spec_key_down(
    text: Option<Seq<char>>,
    key: KeyView,
    m: ModifiersState,
    single_line: bool,
) -> Option<EditorCommandView> {
    match text {
        Some(t) => if has_printable(t) {
            if t == seq!['c'] && m.control {
                Some(EditorCommandView::Copy)
            } else if t == seq!['v'] && m.control {
                Some(EditorCommandView::Paste)
            } else if t == seq!['x'] && m.control {
                Some(EditorCommandView::Cut)
            } else if t == seq!['z'] && m.control {
                Some(EditorCommandView::Undo)
            } else if t == seq!['y'] && m.control {
                Some(EditorCommandView::Redo)
            } else if t == seq!['S'] && m.control {
                Some(EditorCommandView::SaveAs)
            } else if t == seq!['s'] && m.control {
                Some(EditorCommandView::Save)
            } else if t == seq!['w'] && m.control {
                Some(EditorCommandView::CloseDoc)
            } else if !m.control && !m.alt && !m.super_key {
                Some(EditorCommandView::InsertText(t))
            } else {
                None
            }
        } else {
            spec_key_down_named(key, m, single_line)
        },
        None => spec_key_down_named(key, m, single_line),
    }
}

pub open spec fn opt_cmd_view(c: Option<EditorCommand>) -> Option<EditorCommandView> {
    match c {
        Some(x) => Some(x@),
        None => None,
    }
}

fn is_named(key: &Key, n: NamedKey) -> (r: bool)
    ensures
        r == named(key@, n),
{
    match key {
        Key::Named(k) => *k == n,
        Key::Character(_) => false,
    }
}

fn key_down_named(key: &Key, m: ModifiersState, single_line: bool) -> (r: Option<EditorCommand>)
    ensures
        opt_cmd_view(r) == spec_key_down_named(key@, m, single_line),
{
    if is_named(key, NamedKey::ArrowDown) && m.control && m.alt {
        Some(EditorCommand::DuplicateSelection(MoveDirection::Down))
    } else if is_named(key, NamedKey::ArrowUp) && m.control && m.alt {
        Some(EditorCommand::DuplicateSelection(MoveDirection::Up))
    } else if is_named(key, NamedKey::ArrowLeft) && m.control {
        Some(EditorCommand::MoveWord(MoveDirection::Left, m.shift))
    } else if is_named(key, NamedKey::ArrowRight) && m.control {
        Some(EditorCommand::MoveWord(MoveDirection::Right, m.shift))
    } else if is_named(key, NamedKey::ArrowLeft) {
        Some(EditorCommand::Move(MoveDirection::Left, m.shift))
    } else if is_named(key, NamedKey::ArrowRight) {
        Some(EditorCommand::Move(MoveDirection::Right, m.shift))
    } else if is_named(key, NamedKey::ArrowDown) {
        Some(EditorCommand::Move(MoveDirection::Down, m.shift))
    } else if is_named(key, NamedKey::ArrowUp) {
        Some(EditorCommand::Move(MoveDirection::Up, m.shift))
    } else if is_named(key, NamedKey::Delete) {
        Some(EditorCommand::Delete)
    } else if is_named(key, NamedKey::Backspace) {
        Some(EditorCommand::Backspace)
    } else if is_named(key, NamedKey::Tab) && m.shift {
        Some(EditorCommand::Deindent)
    } else if is_named(key, NamedKey::Tab) {
        Some(EditorCommand::Indent(!single_line))
    } else if is_named(key, NamedKey::End) {
        Some(EditorCommand::End(m.shift))
    } else if is_named(key, NamedKey::Home) {
        Some(EditorCommand::Home(m.shift))
    } else if is_named(key, NamedKey::Enter) {
        Some(EditorCommand::InsertNewline)
    } else if is_named(key, NamedKey::PageUp) {
        Some(EditorCommand::PageUp(m.shift))
    } else if is_named(key, NamedKey::PageDown) {
        Some(EditorCommand::PageDown(m.shift))
    } else if is_named(key, NamedKey::Escape) {
        Some(EditorCommand::CancelMultiCursor)
    } else {
        None
    }
}

/// The command of a key pressed in the editor of the desktop front-end;
/// `None` where the key is passed on.
pub fn key_down_command(text: Option<&str>, key: &Key, m: ModifiersState, single_line: bool) -> (r: Option<
    EditorCommand,
>)
    ensures
        opt_cmd_view(r) == spec_key_down(
            match text {
                Some(t) => Some(t@),
                None => None,
            },
            key@,
            m,
            single_line,
        ),
{
    proof {
        reveal_strlit("c");
        reveal_strlit("v");
        reveal_strlit("x");
        reveal_strlit("z");
        reveal_strlit("y");
        reveal_strlit("S");
        reveal_strlit("s");
        reveal_strlit("w");
        assert("c"@ =~= seq!['c']);
        assert("v"@ =~= seq!['v']);
        assert("x"@ =~= seq!['x']);
        assert("z"@ =~= seq!['z']);
        assert("y"@ =~= seq!['y']);
        assert("S"@ =~= seq!['S']);
        assert("s"@ =~= seq!['s']);
        assert("w"@ =~= seq!['w']);
    }
    match text {
        Some(t) => {
            if printable(t) {
                if str_eq(t, "c") && m.control {
                    Some(EditorCommand::Copy)
                } else if str_eq(t, "v") && m.control {
                    Some(EditorCommand::Paste)
                } else if str_eq(t, "x") && m.control {
                    Some(EditorCommand::Cut)
                } else if str_eq(t, "z") && m.control {
                    Some(EditorCommand::Undo)
                } else if str_eq(t, "y") && m.control {
                    Some(EditorCommand::Redo)
                } else if str_eq(t, "S") && m.control {
                    Some(EditorCommand::SaveAs)
                } else if str_eq(t, "s") && m.control {
                    Some(EditorCommand::Save)
                } else if str_eq(t, "w") && m.control {
                    Some(EditorCommand::CloseDoc)
                } else if !m.control && !m.alt && !m.super_key {
                    Some(EditorCommand::InsertText(t.to_owned()))
                } else {
                    None
                }
            } else {
                key_down_named(key, m, single_line)
            }
        },
        None => key_down_named(key, m, single_line),
    }
}

/// A key press that types nothing printable.
pub open spec fn types_nothing(text: Option<Seq<char>>) -> bool {
    match text {
        Some(t) => !has_printable(t),
        None => true,
    }
}

/// The keys that move the cursor, pressed without typing text, give the
/// motion they are named for, extending the selection exactly when Shift
/// is held: End goes to the end of the line, Home to its start, Page Up and
/// Page Down by a page, the arrows without Control or Alt by one place in
/// their direction, and Left and Right with Control held by a word.
pub proof fn lemma_key_down_motions(text: Option<Seq<char>>, m: ModifiersState, single_line: bool)
    requires
        types_nothing(text),
    ensures
        spec_key_down(text, KeyView::Named(NamedKey::End), m, single_line) == Some(
            EditorCommandView::End(m.shift),
        ),
        spec_key_down(text, KeyView::Named(NamedKey::Home), m, single_line) == Some(
            EditorCommandView::Home(m.shift),
        ),
        spec_key_down(text, KeyView::Named(NamedKey::PageUp), m, single_line) == Some(
            EditorCommandView::PageUp(m.shift),
        ),
        spec_key_down(text, KeyView::Named(NamedKey::PageDown), m, single_line) == Some(
            EditorCommandView::PageDown(m.shift),
        ),
        !m.control && !m.alt ==> spec_key_down(text, KeyView::Named(NamedKey::ArrowLeft), m, single_line)
            == Some(EditorCommandView::Move(MoveDirection::Left, m.shift)),
        !m.control && !m.alt ==> spec_key_down(text, KeyView::Named(NamedKey::ArrowRight), m, single_line)
            == Some(EditorCommandView::Move(MoveDirection::Right, m.shift)),
        !m.control && !m.alt ==> spec_key_down(text, KeyView::Named(NamedKey::ArrowUp), m, single_line)
            == Some(EditorCommandView::Move(MoveDirection::Up, m.shift)),
        !m.control && !m.alt ==> spec_key_down(text, KeyView::Named(NamedKey::ArrowDown), m, single_line)
            == Some(EditorCommandView::Move(MoveDirection::Down, m.shift)),
        m.control ==> spec_key_down(text, KeyView::Named(NamedKey::ArrowLeft), m, single_line)
            == Some(EditorCommandView::MoveWord(MoveDirection::Left, m.shift)),
        m.control ==> spec_key_down(text, KeyView::Named(NamedKey::ArrowRight), m, single_line)
            == Some(EditorCommandView::MoveWord(MoveDirection::Right, m.shift)),
{
}

/// A press of the main pointer button with `count` quick clicks at
/// `position` in the desktop editor: the command, and the kind of
/// selection that dragging extends.
pub fn pointer_down(count: usize, position: Position, kind: SelectionKind) -> (r: (
    Option<EditorCommand>,
    SelectionKind,
))
    ensures
        opt_cmd_view(r.0) == (if count == 1 {
            Some(EditorCommandView::SetMainSelection(position))
        } else if count == 2 {
            Some(EditorCommandView::SelectWord(position))
        } else if count == 3 {
            Some(EditorCommandView::SelectLine(position.line))
        } else if count == 4 {
            Some(EditorCommandView::SelectAll)
        } else {
            None
        }),
        r.1 == (if count == 1 {
            SelectionKind::Char
        } else if count == 2 {
            SelectionKind::Word
        } else if count == 3 {
            SelectionKind::Line
        } else {
            kind
        }),
{
    if count == 1 {
        (Some(EditorCommand::SetMainSelection(position)), SelectionKind::Char)
    } else if count == 2 {
        (Some(EditorCommand::SelectWord(position)), SelectionKind::Word)
    } else if count == 3 {
        (Some(EditorCommand::SelectLine(position.line)), SelectionKind::Line)
    } else if count == 4 {
        (Some(EditorCommand::SelectAll), kind)
    } else {
        (None, kind)
    }
}

/// A drag of the pointer to `position` in the desktop editor.
pub fn pointer_move(kind: SelectionKind, position: Position) -> (r: EditorCommand)
    ensures
        r@ == (match kind {
            SelectionKind::Char => EditorCommandView::MoveMainHead(position),
            SelectionKind::Word => EditorCommandView::ExpandByWord(position),
            SelectionKind::Line => EditorCommandView::ExpandByLine(position),
        }),
{
    match kind {
        SelectionKind::Char => EditorCommand::MoveMainHead(position),
        SelectionKind::Word => EditorCommand::ExpandByWord(position),
        SelectionKind::Line => EditorCommand::ExpandByLine(position),
    }
}

/// A press of `button` at `position` in the editor of the other front-end,
/// after the click was counted in `clicks`; `None` for another button than
/// the left one.
pub fn mouse_down(button: MouseButton, clicks: &ClickInfo, position: Position) -> (r: Option<
    EditorCommand,
>)
    ensures
        opt_cmd_view(r) == (if button != MouseButton::Left {
            None
        } else if clicks.count == 0 {
            Some(EditorCommandView::SetMainSelection(position))
        } else if clicks.count == 1 {
            Some(EditorCommandView::SelectWord(position))
        } else if clicks.count == 2 {
            Some(EditorCommandView::SelectLine(position.line))
        } else {
            Some(EditorCommandView::SelectAll)
        }),
{
    if button != MouseButton::Left {
        None
    } else if clicks.count == 0 {
        Some(EditorCommand::SetMainSelection(position))
    } else if clicks.count == 1 {
        Some(EditorCommand::SelectWord(position))
    } else if clicks.count == 2 {
        Some(EditorCommand::SelectLine(position.line))
    } else {
        Some(EditorCommand::SelectAll)
    }
}

/// A drag with `button` to `position` in the editor of the other
/// front-end.
pub fn mouse_drag(button: MouseButton, clicks: &ClickInfo, position: Position) -> (r: Option<
    EditorCommand,
>)
    ensures
        opt_cmd_view(r) == (if button != MouseButton::Left {
            None
        } else if clicks.count == 0 {
            Some(EditorCommandView::MoveMainHead(position))
        } else if clicks.count == 1 {
            Some(EditorCommandView::ExpandByWord(position))
        } else if clicks.count == 2 {
            Some(EditorCommandView::ExpandByLine(position))
        } else {
            None
        }),
{
    if button != MouseButton::Left {
        None
    } else if clicks.count == 0 {
        Some(EditorCommand::MoveMainHead(position))
    } else if clicks.count == 1 {
        Some(EditorCommand::ExpandByWord(position))
    } else if clicks.count == 2 {
        Some(EditorCommand::ExpandByLine(position))
    } else {
        None
    }
}

/// The place of the first binding that the key with the held modifiers
/// matches.
pub open spec fn first_binding(b: Seq<ShortcutView>, key: KeyView, m: ModifiersState) -> Option<int> {
    if exists|i: int| 0 <= i < b.len() && b[i].key == key && b[i].modifiers == m {
        Some(choose|i: int| 0 <= i < b.len() && b[i].key == key && b[i].modifiers == m && forall|j: int| 0 <= j < i ==> !(b[j].key == key && b[j].modifiers == m))
    } else {
        None
    }
}

/// The place of a binding that the key with the held modifiers matches;
/// the first one.
pub fn find_binding(bindings: &Vec<Shortcut>, key: &Key, m: ModifiersState) -> (r: Option<usize>)
    ensures
        match r {
            Some(i) => i < bindings@.len() && bindings@[i as int]@.key == key@ && bindings@[i as int]@.modifiers == m
                && forall|j: int| 0 <= j < i ==> !(bindings@[j]@.key == key@ && bindings@[j]@.modifiers == m),
            None => forall|j: int| 0 <= j < bindings@.len() ==> !(bindings@[j]@.key == key@ && bindings@[j]@.modifiers == m),
        },
{
    for i in 0..bindings.len()
        invariant
            forall|j: int| 0 <= j < i ==> !(bindings@[j]@.key == key@ && bindings@[j]@.modifiers == m),
    {
        if event_match(key, m, &bindings[i]) {
            return Some(i);
        }
    }
    None
}

/// A key event of the editor of the other front-end: pressed or released,
/// and the text it types.
pub struct KeyEventInfo {
    pub pressed: bool,
    pub text: Option<String>,
}

/// The main selection, as the key handling needs it: how many selections
/// there are, whether the main one is empty, whether it lies on one line.
#[derive(Debug, Clone, Copy)]
pub struct MainSelectionInfo {
    pub count: usize,
    pub collapsed: bool,
    pub single_line: bool,
}

pub open spec fn only_ctrl() -> ModifiersState {
    ModifiersState { control: true, ..ModifiersState::none() }
}

pub open spec fn is_ctrl_char(key: KeyView, m: ModifiersState, c: char) -> bool {
    key == KeyView::Character(seq![c]) && m == only_ctrl()
}

/// The commands of a named key pressed in the editor of the other
/// front-end, and whether it is taken; `None` where the key is left to the
/// text it types.
pub open spec fn spec_named_stage(
    k: NamedKey,
    kind: TextEditorKind,
    m: ModifiersState,
    word_select: bool,
    main: MainSelectionInfo,
) -> Option<(Seq<EditorCommandView>, bool)> {
    let code = kind == TextEditorKind::Code;
    if k == NamedKey::Escape {
        if code {
            Some(
                (
                    if main.count > 1 {
                        seq![EditorCommandView::CancelMultiCursor]
                    } else if !main.collapsed {
                        seq![EditorCommandView::CollapseMainSelection]
                    } else {
                        Seq::empty()
                    },
                    true,
                ),
            )
        } else {
            Some((Seq::empty(), false))
        }
    } else if k == NamedKey::Backspace {
        Some((seq![EditorCommandView::Backspace], true))
    } else if k == NamedKey::Delete {
        Some((seq![EditorCommandView::Delete], true))
    } else if k == NamedKey::ArrowLeft && word_select {
        Some((seq![EditorCommandView::MoveWord(MoveDirection::Left, m.shift)], true))
    } else if k == NamedKey::ArrowRight && word_select {
        Some((seq![EditorCommandView::MoveWord(MoveDirection::Right, m.shift)], true))
    } else if k == NamedKey::ArrowLeft {
        Some((seq![EditorCommandView::Move(MoveDirection::Left, m.shift)], true))
    } else if k == NamedKey::ArrowRight {
        Some((seq![EditorCommandView::Move(MoveDirection::Right, m.shift)], true))
    } else if k == NamedKey::ArrowUp && code {
        Some((seq![EditorCommandView::Move(MoveDirection::Up, m.shift)], true))
    } else if k == NamedKey::ArrowDown && code {
        Some((seq![EditorCommandView::Move(MoveDirection::Down, m.shift)], true))
    } else if k == NamedKey::Enter {
        if code {
            Some((seq![EditorCommandView::InsertNewline], true))
        } else {
            Some((Seq::empty(), false))
        }
    } else if k == NamedKey::End {
        Some((seq![EditorCommandView::End(m.shift)], true))
    } else if k == NamedKey::Home {
        Some((seq![EditorCommandView::Home(m.shift)], true))
    } else if k == NamedKey::PageUp {
        Some((seq![EditorCommandView::PageUp(m.shift)], true))
    } else if k == NamedKey::PageDown {
        Some((seq![EditorCommandView::PageDown(m.shift)], true))
    } else if k == NamedKey::Tab && m.shift && code {
        Some((seq![EditorCommandView::Deindent], true))
    } else if k == NamedKey::Tab && main.single_line && !m.control && code {
        Some((seq![EditorCommandView::Indent(false)], true))
    } else if k == NamedKey::Tab && !m.control && code {
        Some((seq![EditorCommandView::Indent(true)], true))
    } else {
        None
    }
}

/// The commands that a key leads to in the editor of the other front-end,
/// and whether the key is taken. A bound shortcut runs its command; Ctrl+c
/// copies; Ctrl+x cuts and Ctrl+v pastes before the key goes on; a named
/// key edits or moves; typed text is inserted unless a shortcut modifier
/// is held.
pub open spec fn spec_keyboard_input(
    focused: bool,
    enabled: bool,
    kind: TextEditorKind,
    pressed: bool,
    text: Option<Seq<char>>,
    key: KeyView,
    m: ModifiersState,
    word_select: bool,
    bindings: Seq<ShortcutView>,
    main: MainSelectionInfo,
) -> (Seq<EditorCommandView>, bool) {
    let possible = m.control || m.alt || m.super_key;
    if !focused || !enabled {
        (Seq::empty(), false)
    } else if kind == TextEditorKind::Code && pressed && possible && first_binding(bindings, key, m) is Some {
        (seq![EditorCommandView::RunBinding(first_binding(bindings, key, m)->Some_0 as usize)], true)
    } else if is_ctrl_char(key, m, 'c') {
        (seq![EditorCommandView::Copy], true)
    } else {
        let pre: Seq<EditorCommandView> = if is_ctrl_char(key, m, 'x') {
            seq![EditorCommandView::Cut]
        } else if is_ctrl_char(key, m, 'v') {
            seq![EditorCommandView::Paste]
        } else {
            Seq::empty()
        };
        let named_outcome = match key {
            KeyView::Named(k) => if pressed {
                spec_named_stage(k, kind, m, word_select, main)
            } else {
                None
            },
            KeyView::Character(_) => None,
        };
        match named_outcome {
            Some((cmds, handled)) => (pre + cmds, handled),
            None => match text {
                Some(t) => if pressed && !possible {
                    (pre.push(EditorCommandView::InsertText(t)), true)
                } else {
                    (pre, false)
                },
                None => (pre, false),
            },
        }
    }
}

pub open spec fn cmds_view(v: Seq<EditorCommand>) -> Seq<EditorCommandView> {
    v.map_values(|c: EditorCommand| c@)
}

fn push_cmd(v: &mut Vec<EditorCommand>, c: EditorCommand)
    ensures
        cmds_view(final(v)@) == cmds_view(old(v)@).push(c@),
{
    let ghost before = v@;
    v.push(c);
    assert(cmds_view(v@) =~= cmds_view(before).push(c@));
}

fn named_stage(
    k: NamedKey,
    kind: TextEditorKind,
    m: ModifiersState,
    word_select: bool,
    main: MainSelectionInfo,
) -> (r: Option<(Vec<EditorCommand>, bool)>)
    ensures
        match r {
            Some(p) => spec_named_stage(k, kind, m, word_select, main) == Some((cmds_view(p.0@), p.1)),
            None => spec_named_stage(k, kind, m, word_select, main) is None,
        },
{
    let code = kind == TextEditorKind::Code;
    let mut v: Vec<EditorCommand> = Vec::new();
    assert(cmds_view(v@) =~= Seq::<EditorCommandView>::empty());
    let handled = if k == NamedKey::Escape {
        if code {
            if main.count > 1 {
                push_cmd(&mut v, EditorCommand::CancelMultiCursor);
            } else if !main.collapsed {
                push_cmd(&mut v, EditorCommand::CollapseMainSelection);
            }
            true
        } else {
            false
        }
    } else if k == NamedKey::Backspace {
        push_cmd(&mut v, EditorCommand::Backspace);
        true
    } else if k == NamedKey::Delete {
        push_cmd(&mut v, EditorCommand::Delete);
        true
    } else if k == NamedKey::ArrowLeft && word_select {
        push_cmd(&mut v, EditorCommand::MoveWord(MoveDirection::Left, m.shift));
        true
    } else if k == NamedKey::ArrowRight && word_select {
        push_cmd(&mut v, EditorCommand::MoveWord(MoveDirection::Right, m.shift));
        true
    } else if k == NamedKey::ArrowLeft {
        push_cmd(&mut v, EditorCommand::Move(MoveDirection::Left, m.shift));
        true
    } else if k == NamedKey::ArrowRight {
        push_cmd(&mut v, EditorCommand::Move(MoveDirection::Right, m.shift));
        true
    } else if k == NamedKey::ArrowUp && code {
        push_cmd(&mut v, EditorCommand::Move(MoveDirection::Up, m.shift));
        true
    } else if k == NamedKey::ArrowDown && code {
        push_cmd(&mut v, EditorCommand::Move(MoveDirection::Down, m.shift));
        true
    } else if k == NamedKey::Enter {
        if code {
            push_cmd(&mut v, EditorCommand::InsertNewline);
            true
        } else {
            false
        }
    } else if k == NamedKey::End {
        push_cmd(&mut v, EditorCommand::End(m.shift));
        true
    } else if k == NamedKey::Home {
        push_cmd(&mut v, EditorCommand::Home(m.shift));
        true
    } else if k == NamedKey::PageUp {
        push_cmd(&mut v, EditorCommand::PageUp(m.shift));
        true
    } else if k == NamedKey::PageDown {
        push_cmd(&mut v, EditorCommand::PageDown(m.shift));
        true
    } else if k == NamedKey::Tab && m.shift && code {
        push_cmd(&mut v, EditorCommand::Deindent);
        true
    } else if k == NamedKey::Tab && main.single_line && !m.control && code {
        push_cmd(&mut v, EditorCommand::Indent(false));
        true
    } else if k == NamedKey::Tab && !m.control && code {
        push_cmd(&mut v, EditorCommand::Indent(true));
        true
    } else {
        return None;
    };
    Some((v, handled))
}

fn is_ctrl_key(key: &Key, m: ModifiersState, c: &str) -> (r: bool)
    ensures
        r == (key@ == KeyView::Character(c@) && m == only_ctrl()),
{
    let ctrl = ModifiersState { control: true, ..ModifiersState::empty() };
    match key {
        Key::Character(s) => str_eq(s.as_str(), c) && m == ctrl,
        Key::Named(_) => false,
    }
}

/// The commands that a key pressed or released in the editor of the other
/// front-end leads to, and whether it was taken. `bindings` are the
/// shortcuts of the editor commands; `word_select` whether the held
/// modifiers move by words on this platform.
pub fn keyboard_input(
    focused: bool,
    enabled: bool,
    kind: TextEditorKind,
    ev: &KeyEventInfo,
    key: &Key,
    m: ModifiersState,
    word_select: bool,
    bindings: &Vec<Shortcut>,
    main: MainSelectionInfo,
) -> (r: (Vec<EditorCommand>, bool))
    ensures
        (cmds_view(r.0@), r.1) == spec_keyboard_input(
            focused,
            enabled,
            kind,
            ev.pressed,
            match ev.text {
                Some(t) => Some(t@),
                None => None,
            },
            key@,
            m,
            word_select,
            bindings@.map_values(|s: Shortcut| s@),
            main,
        ),
{
    let ghost bv = bindings@.map_values(|s: Shortcut| s@);
    let mut out: Vec<EditorCommand> = Vec::new();
    assert(cmds_view(out@) =~= Seq::<EditorCommandView>::empty());
    if !focused || !enabled {
        return (out, false);
    }
    if kind == TextEditorKind::Code && ev.pressed && m.possible_shortcut() {
        match find_binding(bindings, key, m) {
            Some(i) => {
                proof {
                    assert(bv[i as int] == bindings@[i as int]@);
                    assert(forall|j: int| 0 <= j < i ==> bv[j] == bindings@[j]@);
                    let w = first_binding(bv, key@, m);
                    assert(w is Some);
                    let c = w->Some_0;
                    if c < i {
                        assert(bv[c] == bindings@[c]@);
                    }
                    if i < c {
                        assert(bv[i as int] == bindings@[i as int]@);
                    }
                    assert(c == i);
                }
                push_cmd(&mut out, EditorCommand::RunBinding(i));
                return (out, true);
            },
            None => {
                proof {
                    assert forall|j: int| 0 <= j < bv.len() implies !(bv[j].key == key@ && bv[j].modifiers == m) by {
                        assert(bv[j] == bindings@[j]@);
                    }
                }
            },
        }
    }
    proof {
        reveal_strlit("c");
        reveal_strlit("x");
        reveal_strlit("v");
        assert("c"@ =~= seq!['c']);
        assert("x"@ =~= seq!['x']);
        assert("v"@ =~= seq!['v']);
    }
    if is_ctrl_key(key, m, "c") {
        push_cmd(&mut out, EditorCommand::Copy);
        return (out, true);
    }
    if is_ctrl_key(key, m, "x") {
        push_cmd(&mut out, EditorCommand::Cut);
    } else if is_ctrl_key(key, m, "v") {
        push_cmd(&mut out, EditorCommand::Paste);
    }
    let ghost pre = cmds_view(out@);
    if ev.pressed {
        match key {
            Key::Named(k) => {
                match named_stage(*k, kind, m, word_select, main) {
                    Some((cmds, handled)) => {
                        let ghost cv = cmds_view(cmds@);
                        let mut cmds = cmds;
                        let ghost n0 = out@.len();
                        out.append(&mut cmds);
                        proof {
                            assert(cmds_view(out@) =~= pre + cv);
                        }
                        return (out, handled);
                    },
                    None => {},
                }
            },
            Key::Character(_) => {},
        }
    }
    match &ev.text {
        Some(t) => {
            if ev.pressed && !m.possible_shortcut() {
                push_cmd(&mut out, EditorCommand::InsertText(t.clone()));
                (out, true)
            } else {
                (out, false)
            }
        },
        None => (out, false),
    }
}

/// The code editor around a text editor: the search panel beside it, and
/// whether that panel is folded away.
#[derive(Debug, Clone, Copy)]
pub struct CodeEditor {
    pub editor_id: u64,
    pub search_id: u64,
    pub collapse_search_panel: bool,
}

impl CodeEditor {
    pub fn new(editor_id: u64, search_id: u64) -> (r: Self)
        ensures
            r.editor_id == editor_id,
            r.search_id == search_id,
            r.collapse_search_panel,
    {
        CodeEditor { editor_id, search_id, collapse_search_panel: true }
    }

    /// Ctrl+f pressed folds or unfolds the search panel and gives the focus
    /// to the editor (folded) or to the search field (unfolded): the widget
    /// to focus is returned. Other keys are not taken.
    pub fn keyboard_input(&mut self, pressed: bool, key: &Key, m: ModifiersState) -> (r: Option<u64>)
        ensures
            (pressed && key@ == KeyView::Character(seq!['f']) && m == only_ctrl()) ==> {
                &&& final(self).collapse_search_panel == !old(self).collapse_search_panel
                &&& r == Some(if final(self).collapse_search_panel {
                    old(self).editor_id
                } else {
                    old(self).search_id
                })
            },
            !(pressed && key@ == KeyView::Character(seq!['f']) && m == only_ctrl()) ==> {
                &&& final(self).collapse_search_panel == old(self).collapse_search_panel
                &&& r is None
            },
            final(self).editor_id == old(self).editor_id,
            final(self).search_id == old(self).search_id,
    {
        proof {
            reveal_strlit("f");
            assert("f"@ =~= seq!['f']);
        }
        if pressed && is_ctrl_key(key, m, "f") {
            self.collapse_search_panel = !self.collapse_search_panel;
            if self.collapse_search_panel {
                Some(self.editor_id)
            } else {
                Some(self.search_id)
            }
        } else {
            None
        }
    }

    /// The search result before `current` among `found` results, the last
    /// one before the first; `None` without results.
    pub fn search_up(current: usize, found: usize) -> (r: Option<usize>)
        requires
            current + found - 1 <= usize::MAX,
        ensures
            found == 0 ==> r is None,
            found > 0 ==> r == Some(crate::filter::prev_idx(current as int, found as int) as usize),
    {
        if found == 0 {
            return None;
        }
        let m = current % found;
        let r = if m == 0 {
            found - 1
        } else {
            m - 1
        };
        proof {
            if m == 0 {
                assert((current + found - 1) % (found as int) == found - 1) by (nonlinear_arith)
                    requires
                        current % found == 0,
                        found > 0,
                ;
            } else {
                assert((current + found - 1) % (found as int) == m - 1) by (nonlinear_arith)
                    requires
                        m == current % found,
                        m > 0,
                        found > 0,
                ;
            }
        }
        Some(r)
    }

    /// The search result after `current` among `found` results, the first
    /// one after the last; `None` without results.
    pub fn search_down(current: usize, found: usize) -> (r: Option<usize>)
        requires
            current + 1 <= usize::MAX,
        ensures
            found == 0 ==> r is None,
            found > 0 ==> r == Some(crate::filter::next_idx(current as int, found as int) as usize),
    {
        if found == 0 {
            return None;
        }
        Some((current + 1) % found)
    }

    /// The count shown beside the search field: "0/0" without results,
    /// the place of the current result and their number while a search
    /// text is typed, nothing otherwise.
    pub fn search_status(search_len: usize, current: usize, found: usize) -> (r: String)
        requires
            current + 1 <= usize::MAX,
        ensures
            found == 0 ==> r@ == seq!['0', '/', '0'],
            found > 0 && search_len > 0 ==> r@ == decimal((current + 1) as nat) + seq!['/'] + decimal(
                found as nat,
            ),
            found > 0 && search_len == 0 ==> r@ == Seq::<char>::empty(),
    {
        if found == 0 {
            let mut s = String::new();
            crate::rope_utils::push_char(&mut s, '0');
            crate::rope_utils::push_char(&mut s, '/');
            crate::rope_utils::push_char(&mut s, '0');
            assert(s@ =~= seq!['0', '/', '0']);
            s
        } else if search_len > 0 {
            let mut s = usize_to_string(current + 1);
            crate::rope_utils::push_char(&mut s, '/');
            let n = usize_to_string(found);
            s.append(n.as_str());
            s
        } else {
            String::new()
        }
    }
}

/// The cursor motions of a one-line input field.
#[derive(Debug, Clone, Copy, PartialEq, Eq, Structural)]
pub enum InputMotion {
    Previous,
    Next,
    Up,
    Down,
    Home,
    End,
}

/// What a key asks of a one-line input field.
#[derive(Debug)]
pub enum InputCommand {
    /// Move the cursor, extending the selection while Shift is held.
    Motion(InputMotion),
    /// Delete the selection, or the char before the cursor.
    Backspace,
    /// Delete the selection, or the char after the cursor.
    Delete,
    /// Replace the selection by the text.
    InsertText(String),
}

/// The selection of an input field: empty, or anchored at a cursor.
#[derive(Debug)]
pub enum InputSelection<C> {
    Empty,
    Normal(C),
}

/// The selection before a motion: anchored at the cursor when Shift is
/// held and there was none, dropped when Shift is not held.
pub fn toggle_selection_on_shift<C: Copy>(sel: InputSelection<C>, cursor: C, shift: bool) -> (r: InputSelection<C>)
    ensures
        r == (if !shift {
            InputSelection::Empty
        } else if sel is Empty {
            InputSelection::Normal(cursor)
        } else {
            sel
        }),
{
    if !shift {
        InputSelection::Empty
    } else {
        match sel {
            InputSelection::Empty => InputSelection::Normal(cursor),
            InputSelection::Normal(c) => InputSelection::Normal(c),
        }
    }
}

/// A one-line input field: whether it has to be redrawn.
#[derive(Debug, Clone, Copy)]
pub struct Input {
    pub redraw: bool,
}

pub open spec fn input_motion(key: KeyView) -> Option<InputMotion> {
    if named(key, NamedKey::ArrowLeft) {
        Some(InputMotion::Previous)
    } else if named(key, NamedKey::ArrowRight) {
        Some(InputMotion::Next)
    } else if named(key, NamedKey::ArrowUp) {
        Some(InputMotion::Up)
    } else if named(key, NamedKey::ArrowDown) {
        Some(InputMotion::Down)
    } else if named(key, NamedKey::Home) {
        Some(InputMotion::Home)
    } else if named(key, NamedKey::End) {
        Some(InputMotion::End)
    } else {
        None
    }
}

impl Input {
    pub fn new() -> (r: Self)
        ensures
            !r.redraw,
    {
        Input { redraw: false }
    }

    /// A key pressed (or released) in the field: the arrows, Home and End
    /// move the cursor, Backspace and Delete delete, typed text is inserted
    /// unless a shortcut modifier is held. A taken key asks for a redraw;
    /// a released key is not taken.
    pub fn keyboard_input(&mut self, pressed: bool, key: &Key, text: Option<&str>, m: ModifiersState) -> (r: Option<InputCommand>)
        ensures
            !pressed ==> r is None,
            pressed && input_motion(key@) is Some ==> (r matches Some(InputCommand::Motion(x)) && Some(x) == input_motion(key@)),
            pressed && input_motion(key@) is None && named(key@, NamedKey::Backspace) ==> (r matches Some(InputCommand::Backspace)),
            pressed && input_motion(key@) is None && named(key@, NamedKey::Delete) ==> (r matches Some(InputCommand::Delete)),
            pressed && input_motion(key@) is None && !named(key@, NamedKey::Backspace) && !named(key@, NamedKey::Delete) ==> (
                match text {
                    Some(t) => if !(m.control || m.alt || m.super_key) {
                        r matches Some(InputCommand::InsertText(x)) && x@ == t@
                    } else {
                        r is None
                    },
                    None => r is None,
                }),
            final(self).redraw == (if r is Some {
                !old(self).redraw
            } else {
                old(self).redraw
            }),
    {
        if !pressed {
            return None;
        }
        let motion = if is_named(key, NamedKey::ArrowLeft) {
            Some(InputMotion::Previous)
        } else if is_named(key, NamedKey::ArrowRight) {
            Some(InputMotion::Next)
        } else if is_named(key, NamedKey::ArrowUp) {
            Some(InputMotion::Up)
        } else if is_named(key, NamedKey::ArrowDown) {
            Some(InputMotion::Down)
        } else if is_named(key, NamedKey::Home) {
            Some(InputMotion::Home)
        } else if is_named(key, NamedKey::End) {
            Some(InputMotion::End)
        } else {
            None
        };
        let r = match motion {
            Some(x) => Some(InputCommand::Motion(x)),
            None => if is_named(key, NamedKey::Backspace) {
                Some(InputCommand::Backspace)
            } else if is_named(key, NamedKey::Delete) {
                Some(InputCommand::Delete)
            } else {
                match text {
                    Some(t) => if !m.possible_shortcut() {
                        Some(InputCommand::InsertText(t.to_owned()))
                    } else {
                        None
                    },
                    None => None,
                }
            },
        };
        if r.is_some() {
            self.redraw = !self.redraw;
        }
        r
    }
}

/// The command bound to the shortcut of a window key event: taken only
/// when pressed with Control, Alt or Super held; the place of the first
/// window binding it matches. An unfocused window takes every key.
pub fn window_keyboard_input(
    focused: bool,
    pressed: bool,
    key: &Key,
    m: ModifiersState,
    bindings: &Vec<Shortcut>,
) -> (r: (Option<usize>, bool))
    ensures
        !focused ==> r == (None::<usize>, true),
        focused && !(pressed && (m.control || m.alt || m.super_key)) ==> r == (None::<usize>, false),
        focused && pressed && (m.control || m.alt || m.super_key) ==> {
            &&& r.1 == r.0 is Some
            &&& match r.0 {
                Some(i) => i < bindings@.len() && bindings@[i as int]@.key == key@ && bindings@[i as int]@.modifiers == m
                    && forall|j: int| 0 <= j < i ==> !(bindings@[j]@.key == key@ && bindings@[j]@.modifiers == m),
                None => forall|j: int| 0 <= j < bindings@.len() ==> !(bindings@[j]@.key == key@ && bindings@[j]@.modifiers == m),
            }
        },
{
    if !focused {
        return (None, true);
    }
    if pressed && m.possible_shortcut() {
        let i = find_binding(bindings, key, m);
        let taken = i.is_some();
        return (i, taken);
    }
    (None, false)
}

} // verus!

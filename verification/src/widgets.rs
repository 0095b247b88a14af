//! The values that the editor's widgets show: colours taken from the theme,
//! the texts of the status bar, and the state of a resize handle.
use vstd::prelude::*;
use crate::document::Document;
use crate::editor_input::TextEditorKind;
use crate::file_info::{decimal, usize_to_string, Indentation, LineFeed};
use crate::rope_utils::push_char;
use vstd::string::StringSliceAdditionalSpecFns;

verus! {

/// A colour: red, green, blue and opacity, one byte each.
#[derive(Debug, Clone, Copy, PartialEq, Eq, Structural)]
pub struct Color {
    pub r: u8,
    pub g: u8,
    pub b: u8,
    pub a: u8,
}

pub open spec fn black() -> Color {
    Color { r: 0, g: 0, b: 0, a: 255 }
}

pub open spec fn white() -> Color {
    Color { r: 255, g: 255, b: 255, a: 255 }
}

/// A theme colour as the renderer takes it: the same four bytes.
pub fn color_syntect_to_peniko(col: Color) -> (r: Color)
    ensures
        r == col,
{
    Color { r: col.r, g: col.g, b: col.b, a: col.a }
}

/// The value of a hexadecimal digit (the byte of an ASCII char).
pub open spec fn hex_val(c: u8) -> Option<u8> {
    if 48 <= c <= 57 {
        Some((c - 48) as u8)
    } else if 97 <= c <= 102 {
        Some((c - 87) as u8)
    } else if 65 <= c <= 70 {
        Some((c - 55) as u8)
    } else {
        None
    }
}

/// The byte that two bytes of text read as a hexadecimal number
/// (`u8::from_str_radix(_, 16)`, which takes a leading '+').
pub open spec fn hex_pair(a: u8, b: u8) -> Option<u8> {
    if a == 43 {
        hex_val(b)
    } else {
        match (hex_val(a), hex_val(b)) {
            (Some(x), Some(y)) => Some((16 * x + y) as u8),
            _ => None,
        }
    }
}

/// The colour written as "#rrggbb" (opaque) or "#rrggbbaa".
pub open spec fn spec_color_from_str(chars: Seq<char>, b: Seq<u8>) -> Option<Color> {
    if chars.len() > 0 && chars[0] == '#' && (b.len() == 7 || b.len() == 9) {
        match (hex_pair(b[1], b[2]), hex_pair(b[3], b[4]), hex_pair(b[5], b[6])) {
            (Some(r), Some(g), Some(bl)) => if b.len() == 7 {
                Some(Color { r, g, b: bl, a: 255 })
            } else {
                match hex_pair(b[7], b[8]) {
                    Some(a) => Some(Color { r, g, b: bl, a }),
                    None => None,
                }
            },
            _ => None,
        }
    } else {
        None
    }
}

fn hex_val_exec(c: u8) -> (r: Option<u8>)
    ensures
        r == hex_val(c),
{
    if 48 <= c && c <= 57 {
        Some(c - 48)
    } else if 97 <= c && c <= 102 {
        Some(c - 87)
    } else if 65 <= c && c <= 70 {
        Some(c - 55)
    } else {
        None
    }
}

fn hex_pair_exec(a: u8, b: u8) -> (r: Option<u8>)
    ensures
        r == hex_pair(a, b),
{
    if a == 43 {
        hex_val_exec(b)
    } else {
        match (hex_val_exec(a), hex_val_exec(b)) {
            (Some(x), Some(y)) => Some(16 * x + y),
            _ => None,
        }
    }
}

/// The colour written as "#rrggbb" (opaque) or "#rrggbbaa" in a theme
/// file; `None` for any other text.
pub fn color_from_str(col: &str) -> (r: Option<Color>)
    requires
        col.spec_bytes().len() == 7 || col.spec_bytes().len() == 9 ==> (
            vstd::utf8::is_char_boundary(col.spec_bytes(), 3) && vstd::utf8::is_char_boundary(col.spec_bytes(), 5)
                && vstd::utf8::is_char_boundary(col.spec_bytes(), 7)),
    ensures
        r == spec_color_from_str(col@, col.spec_bytes()),
{
    let c = crate::rope_utils::chars_of(col);
    let b = col.as_bytes();
    if !(c.len() > 0 && c[0] == '#' && (b.len() == 7 || b.len() == 9)) {
        return None;
    }
    let r = hex_pair_exec(b[1], b[2]);
    let g = hex_pair_exec(b[3], b[4]);
    let bl = hex_pair_exec(b[5], b[6]);
    match (r, g, bl) {
        (Some(r), Some(g), Some(bl)) => if b.len() == 7 {
            Some(Color { r, g, b: bl, a: 255 })
        } else {
            match hex_pair_exec(b[7], b[8]) {
                Some(a) => Some(Color { r, g, b: bl, a }),
                None => None,
            }
        },
        _ => None,
    }
}

/// The colours a syntax theme may set for an editor.
#[derive(Debug, Clone, Copy)]
pub struct ThemeColors {
    pub foreground: Option<Color>,
    pub background: Option<Color>,
    pub selection: Option<Color>,
    pub selection_border: Option<Color>,
    pub caret: Option<Color>,
    pub gutter_foreground: Option<Color>,
    pub gutter: Option<Color>,
    pub find_highlight: Option<Color>,
}

/// The colours of the surrounding style: those of a code editor and those
/// of the ordinary widgets.
#[derive(Debug, Clone, Copy)]
pub struct StyleColors {
    pub text: Color,
    pub background: Color,
    pub selection_background: Color,
    pub selection_border: Color,
    pub cursor: Color,
    pub widget_background: Color,
    pub widget_text: Color,
    pub highlight: Color,
    pub outline: Color,
}

/// The colours an editor is drawn with.
#[derive(Debug, Clone, Copy)]
pub struct CodeEditorColors {
    pub bg: Color,
    pub fg: Color,
    pub bg_selection: Color,
    pub border_selection: Color,
    pub cursor: Color,
    pub fg_gutter: Color,
    pub bg_gutter: Color,
    pub bg_find_hightlight: Color,
}

pub open spec fn or_else(c: Option<Color>, d: Color) -> Color {
    match c {
        Some(x) => x,
        None => d,
    }
}

fn pick(c: Option<Color>, d: Color) -> (r: Color)
    ensures
        r == or_else(c, d),
{
    match c {
        Some(x) => x,
        None => d,
    }
}

impl CodeEditorColors {
    /// The colours of a code editor: each one the theme's where the theme
    /// sets it, the style's otherwise, the gutter falling back on the
    /// text's colours. An input takes the colours of the ordinary widgets,
    /// with a black-on-white gutter.
    pub fn get(kind: TextEditorKind, theme: &ThemeColors, style: &StyleColors) -> (r: Self)
        ensures
            kind == TextEditorKind::Code ==> {
                &&& r.fg == or_else(theme.foreground, style.text)
                &&& r.bg == or_else(theme.background, style.background)
                &&& r.bg_selection == or_else(theme.selection, style.selection_background)
                &&& r.border_selection == or_else(theme.selection_border, style.selection_border)
                &&& r.cursor == or_else(theme.caret, style.cursor)
                &&& r.fg_gutter == or_else(theme.gutter_foreground, r.fg)
                &&& r.bg_gutter == or_else(theme.gutter, r.bg)
                &&& r.bg_find_hightlight == or_else(theme.find_highlight, style.selection_background)
            },
            kind == TextEditorKind::Input ==> {
                &&& r.bg == style.widget_background
                &&& r.fg == style.widget_text
                &&& r.bg_selection == style.highlight
                &&& r.border_selection == style.highlight
                &&& r.cursor == style.outline
                &&& r.fg_gutter == black()
                &&& r.bg_gutter == white()
                &&& r.bg_find_hightlight == style.highlight
            },
    {
        if kind == TextEditorKind::Code {
            let fg = pick(theme.foreground, style.text);
            let bg = pick(theme.background, style.background);
            CodeEditorColors {
                bg,
                fg,
                bg_selection: pick(theme.selection, style.selection_background),
                border_selection: pick(theme.selection_border, style.selection_border),
                cursor: pick(theme.caret, style.cursor),
                fg_gutter: pick(theme.gutter_foreground, fg),
                bg_gutter: pick(theme.gutter, bg),
                bg_find_hightlight: pick(theme.find_highlight, style.selection_background),
            }
        } else {
            CodeEditorColors {
                bg: style.widget_background,
                fg: style.widget_text,
                bg_selection: style.highlight,
                border_selection: style.highlight,
                cursor: style.outline,
                fg_gutter: Color { r: 0, g: 0, b: 0, a: 255 },
                bg_gutter: Color { r: 255, g: 255, b: 255, a: 255 },
                bg_find_hightlight: style.highlight,
            }
        }
    }
}

/// The texts of the status bar.
#[derive(Debug)]
pub struct StatusBar {
    pub filename: String,
    pub selection: String,
    pub indent: String,
    pub eol: String,
    pub encoding: String,
    pub syntax: String,
}

pub open spec fn untitled() -> Seq<char> {
    seq!['U', 'n', 't', 'i', 't', 'l', 'e', 'd']
}

/// "Ln l, Col c" for a cursor on line `l` at column `c`, both counted from 1.
pub open spec fn line_col_text(line: nat, col: nat) -> Seq<char> {
    seq!['L', 'n', ' '] + decimal(line) + seq![',', ' ', 'C', 'o', 'l', ' '] + decimal(col)
}

pub open spec fn indent_text(i: Indentation) -> Seq<char> {
    match i {
        Indentation::Space(s) => seq!['S', 'p', 'a', 'c', 'e', 's', ':', ' '] + decimal(s as nat),
        Indentation::Tab(t) => seq!['T', 'a', 'b', 's', ':', ' '] + decimal(t as nat),
    }
}

pub open spec fn eol_text(l: LineFeed) -> Seq<char> {
    match l {
        LineFeed::CR => seq!['C', 'R'],
        LineFeed::LF => seq!['L', 'F'],
        LineFeed::CRLF => seq!['C', 'R', 'L', 'F'],
    }
}

fn push_str_chars(s: &mut String, t: &str)
    ensures
        final(s)@ == old(s)@ + t@,
{
    s.append(t);
}

impl StatusBar {
    /// The status bar of `doc`, whose file (if any) is named `base_name`:
    /// the name (or "Untitled") with a star while there is something to
    /// undo; the number of selections, or the line and column of the only
    /// cursor; the indentation; the line ending; the encoding; the syntax.
    pub fn new(doc: &Document, base_name: Option<&str>) -> (r: Self)
        requires
            doc.selections@.len() > 0,
            doc.selections@[0].head.line + 1 <= usize::MAX,
            doc.selections@[0].head.column + 1 <= usize::MAX,
        ensures
            r.filename@ == (match base_name {
                Some(n) => n@,
                None => untitled(),
            }) + (if !doc.history@.is_empty() {
                seq!['*']
            } else {
                Seq::<char>::empty()
            }),
            doc.selections@.len() > 1 ==> r.selection@ == decimal(doc.selections@.len() as nat)
                + seq![' ', 's', 'e', 'l', 'e', 'c', 't', 'i', 'o', 'n', 's'],
            doc.selections@.len() == 1 ==> r.selection@ == line_col_text(
                (doc.selections@[0].head.line + 1) as nat,
                (doc.selections@[0].head.column + 1) as nat,
            ),
            r.indent@ == indent_text(doc.file_info.indentation),
            r.eol@ == eol_text(doc.file_info.linefeed),
            r.encoding@ == doc.file_info.encoding@,
            r.syntax@ == doc.file_info.syntax@,
    {
        let mut filename = match base_name {
            Some(n) => n.to_owned(),
            None => {
                let mut s = String::new();
                push_char(&mut s, 'U');
                push_char(&mut s, 'n');
                push_char(&mut s, 't');
                push_char(&mut s, 'i');
                push_char(&mut s, 't');
                push_char(&mut s, 'l');
                push_char(&mut s, 'e');
                push_char(&mut s, 'd');
                assert(s@ =~= untitled());
                s
            },
        };
        let ghost base = filename@;
        if doc.is_dirty() {
            push_char(&mut filename, '*');
        }
        assert(filename@ =~= base + (if !doc.history@.is_empty() {
            seq!['*']
        } else {
            Seq::<char>::empty()
        }));
        let selection = if doc.selections.len() > 1 {
            let mut s = usize_to_string(doc.selections.len());
            let ghost d = s@;
            push_char(&mut s, ' ');
            push_char(&mut s, 's');
            push_char(&mut s, 'e');
            push_char(&mut s, 'l');
            push_char(&mut s, 'e');
            push_char(&mut s, 'c');
            push_char(&mut s, 't');
            push_char(&mut s, 'i');
            push_char(&mut s, 'o');
            push_char(&mut s, 'n');
            push_char(&mut s, 's');
            assert(s@ =~= d + seq![' ', 's', 'e', 'l', 'e', 'c', 't', 'i', 'o', 'n', 's']);
            s
        } else {
            let mut s = String::new();
            push_char(&mut s, 'L');
            push_char(&mut s, 'n');
            push_char(&mut s, ' ');
            let l = usize_to_string(doc.selections[0].head.line + 1);
            push_str_chars(&mut s, l.as_str());
            push_char(&mut s, ',');
            push_char(&mut s, ' ');
            push_char(&mut s, 'C');
            push_char(&mut s, 'o');
            push_char(&mut s, 'l');
            push_char(&mut s, ' ');
            let c = usize_to_string(doc.selections[0].head.column + 1);
            push_str_chars(&mut s, c.as_str());
            assert(s@ =~= line_col_text(
                (doc.selections@[0].head.line + 1) as nat,
                (doc.selections@[0].head.column + 1) as nat,
            ));
            s
        };
        let indent = {
            let mut s = String::new();
            let n = match doc.file_info.indentation {
                Indentation::Space(n) => {
                    push_char(&mut s, 'S');
                    push_char(&mut s, 'p');
                    push_char(&mut s, 'a');
                    push_char(&mut s, 'c');
                    push_char(&mut s, 'e');
                    push_char(&mut s, 's');
                    n
                },
                Indentation::Tab(n) => {
                    push_char(&mut s, 'T');
                    push_char(&mut s, 'a');
                    push_char(&mut s, 'b');
                    push_char(&mut s, 's');
                    n
                },
            };
            push_char(&mut s, ':');
            push_char(&mut s, ' ');
            let d = usize_to_string(n);
            push_str_chars(&mut s, d.as_str());
            assert(s@ =~= indent_text(doc.file_info.indentation));
            s
        };
        let eol = {
            let mut s = String::new();
            match doc.file_info.linefeed {
                LineFeed::CR => {
                    push_char(&mut s, 'C');
                    push_char(&mut s, 'R');
                },
                LineFeed::LF => {
                    push_char(&mut s, 'L');
                    push_char(&mut s, 'F');
                },
                LineFeed::CRLF => {
                    push_char(&mut s, 'C');
                    push_char(&mut s, 'R');
                    push_char(&mut s, 'L');
                    push_char(&mut s, 'F');
                },
            }
            assert(s@ =~= eol_text(doc.file_info.linefeed));
            s
        };
        StatusBar {
            filename,
            selection,
            indent,
            eol,
            encoding: doc.file_info.encoding.clone(),
            syntax: doc.file_info.syntax.clone(),
        }
    }
}

/// The pointer shapes a widget may ask for.
#[derive(Debug, Clone, Copy, PartialEq, Eq, Structural)]
pub enum CursorIcon {
    EwResize,
}

/// The handle between two panes that drags the width of the first one.
#[derive(Debug, Clone, Copy)]
pub struct ResizeHandle {
    pub width: i32,
    pub hovered: bool,
    pub dragged: bool,
    pub clip_origin_x: i32,
}

impl ResizeHandle {
    /// A handle for a pane `width` wide, neither hovered nor dragged.
    pub fn new(width: i32) -> (r: Self)
        ensures
            r.width == width,
            !r.hovered,
            !r.dragged,
            r.clip_origin_x == 0,
    {
        ResizeHandle { width, hovered: false, dragged: false, clip_origin_x: 0 }
    }

    /// Whether the handle is drawn highlighted.
    pub fn highlighted(&self) -> (r: bool)
        ensures
            r == (self.hovered || self.dragged),
    {
        self.hovered || self.dragged
    }

    /// The handle was drawn at `clip_origin_x`.
    pub fn redraw(&mut self, clip_origin_x: i32)
        ensures
            *final(self) == (ResizeHandle { clip_origin_x, ..*old(self) }),
    {
        self.clip_origin_x = clip_origin_x;
    }

    /// The pointer came over the handle; it shows the resize cursor.
    pub fn hover(&mut self) -> (r: CursorIcon)
        ensures
            *final(self) == (ResizeHandle { hovered: true, ..*old(self) }),
            r == CursorIcon::EwResize,
    {
        self.hovered = true;
        CursorIcon::EwResize
    }

    /// The pointer left the handle.
    pub fn unhover(&mut self)
        ensures
            *final(self) == (ResizeHandle { hovered: false, ..*old(self) }),
    {
        self.hovered = false;
    }

    /// A button went down on the handle: dragging starts.
    pub fn mouse_down(&mut self)
        ensures
            *final(self) == (ResizeHandle { dragged: true, ..*old(self) }),
    {
        self.dragged = true;
    }

    /// The button went up: dragging ends.
    pub fn mouse_up(&mut self)
        ensures
            *final(self) == (ResizeHandle { dragged: false, ..*old(self) }),
    {
        self.dragged = false;
    }

    /// A drag to `location_x` (relative to the handle): the pane now ends
    /// there.
    pub fn mouse_drag(&mut self, location_x: i32)
        requires
            i32::MIN <= old(self).clip_origin_x + location_x <= i32::MAX,
        ensures
            *final(self) == (ResizeHandle { width: (old(self).clip_origin_x + location_x) as i32, ..*old(self) }),
    {
        self.width = self.clip_origin_x + location_x;
    }

    /// The size the handle takes: 5 wide, the whole available height.
    pub fn layout(&self, available_height: u32) -> (r: (u32, u32))
        ensures
            r == (5u32, available_height),
    {
        (5, available_height)
    }
}

} // verus!

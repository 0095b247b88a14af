//! Editor settings: command shortcuts, indentation and theme, with the
//! defaults that stand where the settings file is missing or silent.
use vstd::prelude::*;
use crate::file_info::Indentation;
use crate::rope_utils::str_eq;
use crate::shortcut::{Key, KeyView, ModifiersState, NamedKey, Shortcut, ShortcutView};

verus! {

/// The settings of the editor.
#[derive(Debug)]
pub struct Settings {
    /// Command id and the shortcut bound to it; no id occurs twice.
    pub shortcuts: Vec<(String, Shortcut)>,
    pub indentation: Indentation,
    pub theme: String,
}

/// Settings as read from a settings file, where each part may be missing.
#[derive(Debug)]
pub struct OptSettings {
    pub shortcuts: Option<Vec<(String, Shortcut)>>,
    pub indentation: Option<Indentation>,
    pub theme: Option<String>,
}

pub struct SettingsView {
    pub shortcuts: Seq<(Seq<char>, ShortcutView)>,
    pub indentation: Indentation,
    pub theme: Seq<char>,
}

pub open spec fn bindings_view(v: Seq<(String, Shortcut)>) -> Seq<(Seq<char>, ShortcutView)> {
    v.map_values(|e: (String, Shortcut)| (e.0@, e.1@))
}

/// No command id is bound twice.
pub open spec fn ids_distinct(b: Seq<(Seq<char>, ShortcutView)>) -> bool {
    forall|i: int, j: int| 0 <= i < j < b.len() ==> (#[trigger] b[i]).0 != (#[trigger] b[j]).0
}

impl View for Settings {
    type V = SettingsView;

    open spec fn view(&self) -> SettingsView {
        SettingsView {
            shortcuts: bindings_view(self.shortcuts@),
            indentation: self.indentation,
            theme: self.theme@,
        }
    }
}

impl Settings {
    pub open spec fn wf(self) -> bool {
        ids_distinct(self@.shortcuts)
    }
}

pub open spec fn ctrl() -> ModifiersState {
    ModifiersState { control: true, ..ModifiersState::none() }
}

pub open spec fn ctrl_alt() -> ModifiersState {
    ModifiersState { control: true, alt: true, ..ModifiersState::none() }
}

pub open spec fn ctrl_shift() -> ModifiersState {
    ModifiersState { control: true, shift: true, ..ModifiersState::none() }
}

pub open spec fn char_binding(id: &str, key: &str, m: ModifiersState) -> (Seq<char>, ShortcutView) {
    (id@, ShortcutView { key: KeyView::Character(key@), modifiers: m })
}

/// The shortcuts bound when the settings do not say otherwise.
pub open spec fn default_bindings() -> Seq<(Seq<char>, ShortcutView)> {
    seq![
        char_binding("editor.goto_line", "g", ctrl()),
        char_binding("editor.duplicate_selection_down", "ArrowDown", ctrl_alt()),
        char_binding("editor.duplicate_selection_up", "ArrowUp", ctrl_alt()),
        char_binding("editor.duplicate_selection", "d", ctrl()),
        char_binding("editor.save_doc", "s", ctrl()),
        char_binding("window.opendoc", "o", ctrl()),
        char_binding("editor.undo", "z", ctrl()),
        char_binding("editor.redo", "y", ctrl()),
        char_binding("window.newdoc", "n", ctrl()),
        char_binding("window.closedoc", "w", ctrl()),
        char_binding("window.select_doc", "p", ctrl()),
        ("window.nextdoc"@, ShortcutView { key: KeyView::Named(NamedKey::Tab), modifiers: ctrl() }),
        (
            "window.prevdoc"@,
            ShortcutView { key: KeyView::Named(NamedKey::Tab), modifiers: ctrl_shift() },
        ),
        char_binding("window.show_all_commands", "P", ctrl_shift()),
    ]
}

/// The default settings: the default shortcuts, indentation by four spaces
/// and the "base16-eighties.dark" theme.
pub open spec fn default_settings() -> SettingsView {
    SettingsView {
        shortcuts: default_bindings(),
        indentation: Indentation::Space(4),
        theme: "base16-eighties.dark"@,
    }
}

/// What the settings file gives, each missing part taken from the defaults.
pub open spec fn merged_settings(o: OptSettings) -> SettingsView {
    SettingsView {
        shortcuts: match o.shortcuts {
            Some(s) => bindings_view(s@),
            None => default_bindings(),
        },
        indentation: match o.indentation {
            Some(i) => i,
            None => Indentation::Space(4),
        },
        theme: match o.theme {
            Some(t) => t@,
            None => "base16-eighties.dark"@,
        },
    }
}

fn bind_char(
    v: &mut Vec<(String, Shortcut)>,
    id: &str,
    key: &str,
    m: ModifiersState,
)
    ensures
        bindings_view(final(v)@) == bindings_view(old(v)@).push(
            (id@, ShortcutView { key: KeyView::Character(key@), modifiers: m }),
        ),
{
    let ghost before = v@;
    v.push((id.to_owned(), Shortcut::character(key, m)));
    assert(bindings_view(v@) =~= bindings_view(before).push(
        (id@, ShortcutView { key: KeyView::Character(key@), modifiers: m }),
    ));
}

fn bind_named(v: &mut Vec<(String, Shortcut)>, id: &str, k: NamedKey, m: ModifiersState)
    ensures
        bindings_view(final(v)@) == bindings_view(old(v)@).push(
            (id@, ShortcutView { key: KeyView::Named(k), modifiers: m }),
        ),
{
    let ghost before = v@;
    v.push((id.to_owned(), Shortcut::named(k, m)));
    assert(bindings_view(v@) =~= bindings_view(before).push(
        (id@, ShortcutView { key: KeyView::Named(k), modifiers: m }),
    ));
}

/// The default shortcut bindings.
pub fn default_shortcuts() -> (r: Vec<(String, Shortcut)>)
    ensures
        bindings_view(r@) == default_bindings(),
{
    let c = ModifiersState { control: true, ..ModifiersState::empty() };
    let ca = ModifiersState { control: true, alt: true, ..ModifiersState::empty() };
    let cs = ModifiersState { control: true, shift: true, ..ModifiersState::empty() };
    let mut v: Vec<(String, Shortcut)> = Vec::new();
    assert(bindings_view(v@) =~= Seq::empty());
    bind_char(&mut v, "editor.goto_line", "g", c);
    bind_char(&mut v, "editor.duplicate_selection_down", "ArrowDown", ca);
    bind_char(&mut v, "editor.duplicate_selection_up", "ArrowUp", ca);
    bind_char(&mut v, "editor.duplicate_selection", "d", c);
    bind_char(&mut v, "editor.save_doc", "s", c);
    bind_char(&mut v, "window.opendoc", "o", c);
    bind_char(&mut v, "editor.undo", "z", c);
    bind_char(&mut v, "editor.redo", "y", c);
    bind_char(&mut v, "window.newdoc", "n", c);
    bind_char(&mut v, "window.closedoc", "w", c);
    bind_char(&mut v, "window.select_doc", "p", c);
    bind_named(&mut v, "window.nextdoc", NamedKey::Tab, c);
    bind_named(&mut v, "window.prevdoc", NamedKey::Tab, cs);
    bind_char(&mut v, "window.show_all_commands", "P", cs);
    assert(bindings_view(v@) =~= default_bindings());
    v
}

impl Default for Settings {
    fn default() -> (r: Self)
        ensures
            r@ == default_settings(),
    {
        Settings {
            shortcuts: default_shortcuts(),
            indentation: Indentation::Space(4),
            theme: "base16-eighties.dark".to_owned(),
        }
    }
}

impl Settings {
    /// The settings read from the settings file, or the defaults where it
    /// could not be read (`None`); each part the file leaves out is taken
    /// from the defaults.
    pub fn load(parsed: Option<OptSettings>) -> (r: Settings)
        ensures
            r@ == (match parsed {
                Some(o) => merged_settings(o),
                None => default_settings(),
            }),
    {
        match parsed {
            None => Settings::default(),
            Some(o) => {
                let shortcuts = match o.shortcuts {
                    Some(s) => s,
                    None => default_shortcuts(),
                };
                let indentation = match o.indentation {
                    Some(i) => i,
                    None => Indentation::Space(4),
                };
                let theme = match o.theme {
                    Some(t) => t,
                    None => "base16-eighties.dark".to_owned(),
                };
                Settings { shortcuts, indentation, theme }
            },
        }
    }

    /// The shortcut bound to the command `id`, if any: that of its first
    /// entry.
    pub fn shortcut_for(&self, id: &str) -> (r: Option<Shortcut>)
        ensures
            match r {
                Some(s) => exists|i: int|
                    0 <= i < self@.shortcuts.len() && (#[trigger] self@.shortcuts[i]).0 == id@
                        && self@.shortcuts[i].1 == s@
                        && forall|k: int| 0 <= k < i ==> (#[trigger] self@.shortcuts[k]).0 != id@,
                None => forall|i: int|
                    0 <= i < self@.shortcuts.len() ==> (#[trigger] self@.shortcuts[i]).0 != id@,
            },
    {
        let mut i: usize = 0;
        while i < self.shortcuts.len()
            invariant
                i <= self.shortcuts@.len(),
                forall|k: int| 0 <= k < i ==> (#[trigger] self@.shortcuts[k]).0 != id@,
            decreases self.shortcuts@.len() - i,
        {
            let entry = &self.shortcuts[i];
            assert(self@.shortcuts[i as int] == (entry.0@, entry.1@));
            if str_eq(entry.0.as_str(), id) {
                return Some(entry.1.duplicate());
            }
            i += 1;
        }
        None
    }
}

} // verus!

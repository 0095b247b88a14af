//! The registry of editor and window commands, and the shortcuts bound to
//! them by the settings.
use vstd::prelude::*;
use crate::settings::{bindings_view, Settings};
use crate::shortcut::{Shortcut, ShortcutView};
use crate::rope_utils::str_eq;

verus! {

/// The commands known by id, those of the editor and those of the window,
/// and the shortcut bindings: a shortcut and the place of its command.
pub struct CommandsRegistry {
    pub view: Vec<String>,
    pub window: Vec<String>,
    pub view_shortcut: Vec<(Shortcut, usize)>,
    pub window_shortcut: Vec<(Shortcut, usize)>,
}

pub open spec fn ids_view(v: Seq<String>) -> Seq<Seq<char>> {
    v.map_values(|s: String| s@)
}

pub open spec fn keyed_view(v: Seq<(Shortcut, usize)>) -> Seq<(ShortcutView, usize)> {
    v.map_values(|e: (Shortcut, usize)| (e.0@, e.1))
}

/// `s` begins with `p`.
pub open spec fn starts_with(s: Seq<char>, p: Seq<char>) -> bool {
    s.len() >= p.len() && s.take(p.len() as int) == p
}

/// The place of `id` in `ids`, if it is there (the first one).
pub open spec fn index_of(ids: Seq<Seq<char>>, id: Seq<char>) -> Option<int> {
    if exists|i: int| 0 <= i < ids.len() && ids[i] == id {
        Some(choose|i: int| 0 <= i < ids.len() && ids[i] == id && forall|j: int| 0 <= j < i ==> ids[j] != id)
    } else {
        None
    }
}

/// `b` with `sc` bound to command `c`: the binding of `sc` replaced, or a
/// new one added.
pub open spec fn bind(b: Seq<(ShortcutView, usize)>, sc: ShortcutView, c: usize) -> Seq<(ShortcutView, usize)> {
    if exists|k: int| 0 <= k < b.len() && b[k].0 == sc {
        let k = choose|k: int| 0 <= k < b.len() && b[k].0 == sc;
        b.update(k, (sc, c))
    } else {
        b.push((sc, c))
    }
}

/// No shortcut is bound twice.
pub open spec fn keys_distinct(b: Seq<(ShortcutView, usize)>) -> bool {
    forall|i: int, j: int| 0 <= i < j < b.len() ==> (#[trigger] b[i]).0 != (#[trigger] b[j]).0
}

/// The bindings `b` after the settings entries `s[..n]` whose id starts
/// with `prefix` and names a command of `ids`.
pub open spec fn bound_from(
    b: Seq<(ShortcutView, usize)>,
    s: Seq<(Seq<char>, ShortcutView)>,
    n: int,
    prefix: Seq<char>,
    ids: Seq<Seq<char>>,
) -> Seq<(ShortcutView, usize)>
    decreases n,
{
    if n <= 0 {
        b
    } else {
        let prev = bound_from(b, s, n - 1, prefix, ids);
        let e = s[n - 1];
        if starts_with(e.0, prefix) && index_of(ids, e.0) is Some {
            bind(prev, e.1, index_of(ids, e.0)->Some_0 as usize)
        } else {
            prev
        }
    }
}

pub open spec fn editor_prefix() -> Seq<char> {
    seq!['e', 'd', 'i', 't', 'o', 'r', '.']
}

pub open spec fn window_prefix() -> Seq<char> {
    seq!['w', 'i', 'n', 'd', 'o', 'w', '.']
}

fn prefix_of(s: &str, p: &str) -> (r: bool)
    ensures
        r == starts_with(s@, p@),
{
    let a = crate::rope_utils::chars_of(s);
    let b = crate::rope_utils::chars_of(p);
    if a.len() < b.len() {
        return false;
    }
    for i in 0..b.len()
        invariant
            a@ == s@,
            b@ == p@,
            b@.len() <= a@.len(),
            forall|k: int| 0 <= k < i ==> a@[k] == b@[k],
    {
        if a[i] != b[i] {
            proof {
                assert(s@.take(p@.len() as int)[i as int] != p@[i as int]);
            }
            return false;
        }
    }
    assert(s@.take(p@.len() as int) =~= p@);
    true
}

fn find_id(ids: &Vec<String>, id: &str) -> (r: Option<usize>)
    ensures
        match r {
            Some(i) => index_of(ids_view(ids@), id@) == Some(i as int),
            None => index_of(ids_view(ids@), id@) is None,
        },
{
    let ghost v = ids_view(ids@);
    for i in 0..ids.len()
        invariant
            v == ids_view(ids@),
            forall|j: int| 0 <= j < i ==> v[j] != id@,
    {
        if str_eq(ids[i].as_str(), id) {
            proof {
                assert(v[i as int] == id@);
                let c = choose|c: int| 0 <= c < v.len() && v[c] == id@ && forall|j: int| 0 <= j < c ==> v[j] != id@;
                if c < i {
                    assert(v[c] != id@);
                }
                if i < c {
                    assert(v[i as int] != id@);
                }
            }
            return Some(i);
        }
    }
    None
}

fn bind_exec(b: &mut Vec<(Shortcut, usize)>, sc: &Shortcut, c: usize)
    requires
        keys_distinct(keyed_view(old(b)@)),
    ensures
        keyed_view(final(b)@) == bind(keyed_view(old(b)@), sc@, c),
        keys_distinct(keyed_view(final(b)@)),
{
    let ghost kb = keyed_view(b@);
    let n = b.len();
    let mut k: usize = 0;
    while k < n
        invariant
            n == b@.len(),
            b@ == old(b)@,
            kb == keyed_view(b@),
            keys_distinct(kb),
            k <= n,
            forall|j: int| 0 <= j < k ==> kb[j].0 != sc@,
        decreases n - k,
    {
        proof {
            assert(kb[k as int] == (b@[k as int].0@, b@[k as int].1));
        }
        if b[k].0.same_as(sc) {
            proof {
                assert(kb[k as int].0 == sc@);
                let w = choose|w: int| 0 <= w < kb.len() && kb[w].0 == sc@;
                if w < k {
                    assert(kb[w].0 != kb[k as int].0);
                }
                if w > k {
                    assert(kb[k as int].0 != kb[w].0);
                }
                assert(w == k);
                assert(bind(kb, sc@, c) == kb.update(k as int, (sc@, c)));
            }
            let ghost before = b@;
            b.set(k, (sc.duplicate(), c));
            proof {
                assert(keyed_view(b@) =~= kb.update(k as int, (sc@, c)));
            }
            return;
        }
        k += 1;
    }
    let ghost before = b@;
    b.push((sc.duplicate(), c));
    proof {
        assert(keyed_view(b@) =~= kb.push((sc@, c)));
        assert forall|i: int, j: int| 0 <= i < j < keyed_view(b@).len() implies (#[trigger] keyed_view(b@)[i]).0
            != (#[trigger] keyed_view(b@)[j]).0 by {
            if j == kb.len() {
                assert(kb[i].0 != sc@);
            } else {
                assert(keyed_view(b@)[i] == kb[i] && keyed_view(b@)[j] == kb[j]);
            }
        }
    }
}

fn bind_prefixed(
    out: &mut Vec<(Shortcut, usize)>,
    settings: &Settings,
    prefix: &str,
    ids: &Vec<String>,
)
    requires
        keys_distinct(keyed_view(old(out)@)),
    ensures
        keyed_view(final(out)@) == bound_from(
            keyed_view(old(out)@),
            settings@.shortcuts,
            settings@.shortcuts.len() as int,
            prefix@,
            ids_view(ids@),
        ),
        keys_distinct(keyed_view(final(out)@)),
{
    let ghost b0 = keyed_view(out@);
    let ghost s = settings@.shortcuts;
    for i in 0..settings.shortcuts.len()
        invariant
            s == settings@.shortcuts,
            s == bindings_view(settings.shortcuts@),
            keys_distinct(keyed_view(out@)),
            keyed_view(out@) == bound_from(b0, s, i as int, prefix@, ids_view(ids@)),
    {
        let e = &settings.shortcuts[i];
        proof {
            assert(s[i as int] == (e.0@, e.1@));
        }
        if prefix_of(e.0.as_str(), prefix) {
            match find_id(ids, e.0.as_str()) {
                Some(c) => {
                    bind_exec(out, &e.1, c);
                },
                None => {},
            }
        }
    }
}

fn ids_of(names: &[&str]) -> (r: Vec<String>)
    ensures
        r@.len() == names@.len(),
        forall|i: int| 0 <= i < names@.len() ==> (#[trigger] r@[i])@ == names@[i]@,
{
    let mut r: Vec<String> = Vec::new();
    for i in 0..names.len()
        invariant
            r@.len() == i,
            forall|k: int| 0 <= k < i ==> (#[trigger] r@[k])@ == names@[k]@,
    {
        r.push(names[i].to_owned());
    }
    r
}

impl CommandsRegistry {
    /// A registry without commands or bindings.
    pub fn new() -> (r: Self)
        ensures
            r.view@.len() == 0,
            r.window@.len() == 0,
            r.view_shortcut@.len() == 0,
            r.window_shortcut@.len() == 0,
    {
        CommandsRegistry {
            view: Vec::new(),
            window: Vec::new(),
            view_shortcut: Vec::new(),
            window_shortcut: Vec::new(),
        }
    }

    /// The registry of the editor's commands, without bindings.
    pub fn register() -> (r: Self)
        ensures
            ids_view(r.view@) == seq![
                "editor.goto_line"@,
                "editor.undo"@,
                "editor.redo"@,
                "editor.save_doc"@,
                "editor.duplicate_selection_down"@,
                "editor.duplicate_selection_up"@,
                "editor.duplicate_selection"@,
                "editor.show_search_panel"@,
                "editor.change_language"@,
            ],
            ids_view(r.window@) == seq![
                "window.newdoc"@,
                "window.nextdoc"@,
                "window.prevdoc"@,
                "window.opendoc"@,
                "window.closedoc"@,
                "window.select_doc"@,
                "window.change_theme"@,
                "window.show_all_commands"@,
            ],
            r.view_shortcut@.len() == 0,
            r.window_shortcut@.len() == 0,
    {
        let view = ids_of(
            &[
                "editor.goto_line",
                "editor.undo",
                "editor.redo",
                "editor.save_doc",
                "editor.duplicate_selection_down",
                "editor.duplicate_selection_up",
                "editor.duplicate_selection",
                "editor.show_search_panel",
                "editor.change_language",
            ],
        );
        let window = ids_of(
            &[
                "window.newdoc",
                "window.nextdoc",
                "window.prevdoc",
                "window.opendoc",
                "window.closedoc",
                "window.select_doc",
                "window.change_theme",
                "window.show_all_commands",
            ],
        );
        let r = CommandsRegistry { view, window, view_shortcut: Vec::new(), window_shortcut: Vec::new() };
        assert(ids_view(r.view@) =~= seq![
            "editor.goto_line"@,
            "editor.undo"@,
            "editor.redo"@,
            "editor.save_doc"@,
            "editor.duplicate_selection_down"@,
            "editor.duplicate_selection_up"@,
            "editor.duplicate_selection"@,
            "editor.show_search_panel"@,
            "editor.change_language"@,
        ]);
        assert(ids_view(r.window@) =~= seq![
            "window.newdoc"@,
            "window.nextdoc"@,
            "window.prevdoc"@,
            "window.opendoc"@,
            "window.closedoc"@,
            "window.select_doc"@,
            "window.change_theme"@,
            "window.show_all_commands"@,
        ]);
        r
    }

    /// Binds the shortcuts of the settings: each "editor." id that names an
    /// editor command, and each "window." id that names a window command,
    /// has its shortcut bound to that command, a later binding of the same
    /// shortcut replacing an earlier one.
    pub fn bind_shortcuts(&mut self, settings: &Settings)
        requires
            keys_distinct(keyed_view(old(self).view_shortcut@)),
            keys_distinct(keyed_view(old(self).window_shortcut@)),
        ensures
            keyed_view(final(self).view_shortcut@) == bound_from(
                keyed_view(old(self).view_shortcut@),
                settings@.shortcuts,
                settings@.shortcuts.len() as int,
                editor_prefix(),
                ids_view(old(self).view@),
            ),
            keyed_view(final(self).window_shortcut@) == bound_from(
                keyed_view(old(self).window_shortcut@),
                settings@.shortcuts,
                settings@.shortcuts.len() as int,
                window_prefix(),
                ids_view(old(self).window@),
            ),
            final(self).view@ == old(self).view@,
            final(self).window@ == old(self).window@,
            keys_distinct(keyed_view(final(self).view_shortcut@)),
            keys_distinct(keyed_view(final(self).window_shortcut@)),
    {
        proof {
            reveal_strlit("editor.");
            reveal_strlit("window.");
            assert("editor."@ =~= editor_prefix());
            assert("window."@ =~= window_prefix());
        }
        bind_prefixed(&mut self.view_shortcut, settings, "editor.", &self.view);
        bind_prefixed(&mut self.window_shortcut, settings, "window.", &self.window);
    }
}

} // verus!

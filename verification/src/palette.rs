//! Command palettes: the builder of a palette, what a palette holds once
//! shown, and how it answers keys.
use vstd::prelude::*;
use crate::filter::{Filter, FilterItem, FilteredList, next_idx, prev_idx};
use crate::shortcut::{Key, KeyView, ModifiersState, NamedKey, Shortcut, ShortcutView, event_match};
use crate::rope_utils::{occurs_in, str_contains};

verus! {

/// How a palette is to be shown: its description, the action applied to
/// the chosen entry, its owner widget, the keys that step through it, the
/// place selected first, and its entries (none for a free-text palette).
pub struct PaletteState<A, M> {
    description: String,
    action: Option<A>,
    pub owner: u64,
    active: bool,
    next_key: Option<Shortcut>,
    prev_key: Option<Shortcut>,
    selected_idx: usize,
    items: Option<Vec<String>>,
    modal: M,
}

impl<A, M> PaletteState<A, M> {
    pub closed spec fn spec_description(self) -> Seq<char> {
        self.description@
    }

    pub closed spec fn spec_action(self) -> Option<A> {
        self.action
    }

    pub closed spec fn spec_active(self) -> bool {
        self.active
    }

    pub closed spec fn spec_next_key(self) -> Option<ShortcutView> {
        match self.next_key {
            Some(k) => Some(k@),
            None => None,
        }
    }

    pub closed spec fn spec_prev_key(self) -> Option<ShortcutView> {
        match self.prev_key {
            Some(k) => Some(k@),
            None => None,
        }
    }

    pub closed spec fn spec_selected_idx(self) -> usize {
        self.selected_idx
    }

    pub closed spec fn spec_items(self) -> Option<Seq<String>> {
        match self.items {
            Some(v) => Some(v@),
            None => None,
        }
    }

    pub closed spec fn spec_modal(self) -> M {
        self.modal
    }

    pub closed spec fn spec_owner(self) -> u64 {
        self.owner
    }

    /// A palette shown on `modal` for the widget `owner`: no description,
    /// no action, inactive, no step keys, the first place selected, and no
    /// entries.
    pub fn new(modal: M, owner: u64) -> (r: Self)
        ensures
            r.spec_description() == Seq::<char>::empty(),
            r.spec_action() is None,
            r.spec_owner() == owner,
            !r.spec_active(),
            r.spec_next_key() is None,
            r.spec_prev_key() is None,
            r.spec_selected_idx() == 0,
            r.spec_items() is None,
            r.spec_modal() == modal,
    {
        PaletteState {
            description: String::new(),
            action: None,
            owner,
            active: false,
            next_key: None,
            prev_key: None,
            selected_idx: 0,
            items: None,
            modal,
        }
    }

    /// Whether the palette is active.
    pub fn active(&self) -> (r: bool)
        ensures
            r == self.spec_active(),
    {
        self.active
    }

    /// The same palette with the description `description`.
    pub fn description(self, description: &str) -> (r: Self)
        ensures
            r.spec_description() == description@,
            r.spec_action() == self.spec_action(),
            r.spec_owner() == self.spec_owner(),
            r.spec_active() == self.spec_active(),
            r.spec_next_key() == self.spec_next_key(),
            r.spec_prev_key() == self.spec_prev_key(),
            r.spec_selected_idx() == self.spec_selected_idx(),
            r.spec_items() == self.spec_items(),
            r.spec_modal() == self.spec_modal(),
    {
        let mut s = self;
        s.description = description.to_owned();
        s
    }

    /// The same palette with `action` applied to the chosen entry.
    pub fn accept(self, action: A) -> (r: Self)
        ensures
            r.spec_description() == self.spec_description(),
            r.spec_action() == Some(action),
            r.spec_owner() == self.spec_owner(),
            r.spec_active() == self.spec_active(),
            r.spec_next_key() == self.spec_next_key(),
            r.spec_prev_key() == self.spec_prev_key(),
            r.spec_selected_idx() == self.spec_selected_idx(),
            r.spec_items() == self.spec_items(),
            r.spec_modal() == self.spec_modal(),
    {
        let mut s = self;
        s.action = Some(action);
        s
    }

    /// The same palette, stepping down with `next_key`.
    pub fn next_key(self, next_key: Shortcut) -> (r: Self)
        ensures
            r.spec_description() == self.spec_description(),
            r.spec_action() == self.spec_action(),
            r.spec_owner() == self.spec_owner(),
            r.spec_active() == self.spec_active(),
            r.spec_next_key() == Some(next_key@),
            r.spec_prev_key() == self.spec_prev_key(),
            r.spec_selected_idx() == self.spec_selected_idx(),
            r.spec_items() == self.spec_items(),
            r.spec_modal() == self.spec_modal(),
    {
        let mut s = self;
        s.next_key = Some(next_key);
        s
    }

    /// The same palette, stepping up with `prev_key`.
    pub fn prev_key(self, prev_key: Shortcut) -> (r: Self)
        ensures
            r.spec_description() == self.spec_description(),
            r.spec_action() == self.spec_action(),
            r.spec_owner() == self.spec_owner(),
            r.spec_active() == self.spec_active(),
            r.spec_next_key() == self.spec_next_key(),
            r.spec_prev_key() == Some(prev_key@),
            r.spec_selected_idx() == self.spec_selected_idx(),
            r.spec_items() == self.spec_items(),
            r.spec_modal() == self.spec_modal(),
    {
        let mut s = self;
        s.prev_key = Some(prev_key);
        s
    }

    /// The same palette with the entries `items`.
    pub fn items(self, items: Vec<String>) -> (r: Self)
        ensures
            r.spec_description() == self.spec_description(),
            r.spec_action() == self.spec_action(),
            r.spec_owner() == self.spec_owner(),
            r.spec_active() == self.spec_active(),
            r.spec_next_key() == self.spec_next_key(),
            r.spec_prev_key() == self.spec_prev_key(),
            r.spec_selected_idx() == self.spec_selected_idx(),
            r.spec_items() == Some(items@),
            r.spec_modal() == self.spec_modal(),
    {
        let mut s = self;
        s.items = Some(items);
        s
    }

    /// The same palette with the place `selected_idx` selected first.
    pub fn selected_idx(self, selected_idx: usize) -> (r: Self)
        ensures
            r.spec_description() == self.spec_description(),
            r.spec_action() == self.spec_action(),
            r.spec_owner() == self.spec_owner(),
            r.spec_active() == self.spec_active(),
            r.spec_next_key() == self.spec_next_key(),
            r.spec_prev_key() == self.spec_prev_key(),
            r.spec_selected_idx() == selected_idx,
            r.spec_items() == self.spec_items(),
            r.spec_modal() == self.spec_modal(),
    {
        let mut s = self;
        s.selected_idx = selected_idx;
        s
    }

    /// The same palette for the widget `owner`.
    pub fn owner(self, owner: u64) -> (r: Self)
        ensures
            r.spec_description() == self.spec_description(),
            r.spec_action() == self.spec_action(),
            r.spec_owner() == owner,
            r.spec_active() == self.spec_active(),
            r.spec_next_key() == self.spec_next_key(),
            r.spec_prev_key() == self.spec_prev_key(),
            r.spec_selected_idx() == self.spec_selected_idx(),
            r.spec_items() == self.spec_items(),
            r.spec_modal() == self.spec_modal(),
    {
        let mut s = self;
        s.owner = owner;
        s
    }

    /// The palette to present on the modal layer: its entries filtered by
    /// the empty input, with the place asked for selected.
    pub fn show(self) -> (r: Palette<A, M>)
        ensures
            r.wf(),
            r.has_items == (self.spec_items() is Some),
            r.list.filter.items@.len() == (match self.spec_items() {
                Some(v) => v.len(),
                None => 0,
            }),
            r.list.filter.filtered_items@ == r.list.filter.items@,
            r.list.filter.initial_selected_idx == (if self.spec_selected_idx()
                < r.list.filter.items@.len() {
                self.spec_selected_idx() as int
            } else if r.list.filter.items@.len() == 0 {
                0
            } else {
                r.list.filter.items@.len() - 1
            }),
            r.list.filter.selected_idx == (if r.list.filter.items@.len() == 0 {
                None
            } else {
                Some(r.list.filter.initial_selected_idx)
            }),
            r.input@ == Seq::<char>::empty(),
            r.list.action == self.spec_action(),
            r.list.owner_id == self.spec_owner(),
            r.owner_id == self.spec_owner(),
            r.modal == self.spec_modal(),
            r.description@ == self.spec_description(),
            r.next_key_view() == self.spec_next_key(),
            r.prev_key_view() == self.spec_prev_key(),
    {
        let has_items = self.items.is_some();
        let texts = match self.items {
            Some(v) => v,
            None => Vec::new(),
        };
        proof {
            reveal_strlit("");
        }
        let list = FilteredList::new(texts, "", self.selected_idx, self.action, self.owner);
        Palette {
            description: self.description,
            list,
            input: String::new(),
            has_items,
            next_key: self.next_key,
            prev_key: self.prev_key,
            owner_id: self.owner,
            modal: self.modal,
        }
    }
}

/// A palette on screen: the text typed so far, the list it filters, and
/// the keys that step through the list.
pub struct Palette<A, M> {
    pub description: String,
    pub list: FilteredList<Option<A>>,
    pub input: String,
    pub has_items: bool,
    pub next_key: Option<Shortcut>,
    pub prev_key: Option<Shortcut>,
    pub owner_id: u64,
    pub modal: M,
}

/// What the palette asks of its surroundings after a key.
#[derive(Debug, PartialEq, Eq, Structural)]
pub enum PaletteOutcome {
    /// The key was not for the palette.
    Ignored,
    /// The key was taken; the selection may have moved.
    Handled,
    /// The palette closes.
    Close,
}

impl<A, M> Palette<A, M> {
    pub open spec fn wf(self) -> bool {
        self.list.filter.wf()
    }

    pub open spec fn next_key_view(self) -> Option<ShortcutView> {
        match self.next_key {
            Some(k) => Some(k@),
            None => None,
        }
    }

    pub open spec fn prev_key_view(self) -> Option<ShortcutView> {
        match self.prev_key {
            Some(k) => Some(k@),
            None => None,
        }
    }

    /// The entry and text the action is applied to when the palette is
    /// accepted: the selected entry of a list palette, or the typed text at
    /// place 0 in a free-text palette.
    pub open spec fn accepted(self) -> Option<(usize, Seq<char>)> {
        if self.has_items {
            match self.list.filter.selected_idx {
                Some(i) => if i < self.list.filter.filtered_items@.len() {
                    Some(
                        (
                            self.list.filter.filtered_items@[i as int].index,
                            self.list.filter.filtered_items@[i as int].text@,
                        ),
                    )
                } else {
                    None
                },
                None => None,
            }
        } else {
            Some((0usize, self.input@))
        }
    }

    /// Whether the key with the held modifiers is the shortcut `s`.
    pub open spec fn is_key(key: KeyView, modifiers: ModifiersState, s: Option<ShortcutView>) -> bool {
        match s {
            Some(v) => key == v.key && modifiers == v.modifiers,
            None => false,
        }
    }

    /// The text typed in the palette became `input`; the list is filtered
    /// by it.
    pub fn set_input(&mut self, input: &str)
        requires
            old(self).wf(),
        ensures
            final(self).wf(),
            final(self).input@ == input@,
            final(self).has_items == old(self).has_items,
            final(self).next_key_view() == old(self).next_key_view(),
            final(self).prev_key_view() == old(self).prev_key_view(),
            final(self).list.filter.initial_selected_idx == old(self).list.filter.initial_selected_idx,
            input@.len() == 0 ==> {
                &&& final(self).list.filter.items@ == old(self).list.filter.items@
                &&& final(self).list.filter.filtered_items@ == old(self).list.filter.items@
                &&& final(self).list.filter.selected_idx == old(self).list.filter.selected_idx
            },
            input@.len() > 0 ==> final(self).list.filter.matches_pattern(
                old(self).list.filter.items@,
                input@,
            ),
    {
        self.input = input.to_owned();
        self.list.filter.set_pattern(input);
    }

    fn accepted_entry(&self) -> (r: Option<(usize, String)>)
        ensures
            match r {
                Some(p) => self.accepted() == Some((p.0, p.1@)),
                None => self.accepted() is None,
            },
    {
        if self.has_items {
            match self.list.filter.selected_item() {
                Some(item) => Some((item.index, item.text)),
                None => None,
            }
        } else {
            Some((0, self.input.clone()))
        }
    }

    /// A key was pressed (`released` false) or released (`released` true)
    /// with `modifiers` held. Releasing Control while a step key with
    /// Control is set closes the palette and accepts the selected entry of
    /// a list; other releases are not taken; the step keys,
    /// and the arrows, move the selection; Enter closes and accepts; Escape
    /// closes. The second result is what the action is applied to.
    pub fn key_input(&mut self, released: bool, key: &Key, modifiers: ModifiersState) -> (r: (
        PaletteOutcome,
        Option<(usize, String)>,
    ))
        requires
            old(self).wf(),
        ensures
            final(self).wf(),
            final(self).input@ == old(self).input@,
            final(self).has_items == old(self).has_items,
            final(self).list.filter.items@ == old(self).list.filter.items@,
            final(self).list.filter.filtered_items@ == old(self).list.filter.filtered_items@,
            ({
                let o = *old(self);
                let n = o.list.filter.filtered_items@.len() as int;
                let sel = o.list.filter.selected_idx;
                let down = match sel {
                    Some(i) => Some(next_idx(i as int, n) as usize),
                    None => None,
                };
                let up = match sel {
                    Some(i) => Some(prev_idx(i as int, n) as usize),
                    None => None,
                };
                let acc = match r.1 {
                    Some(p) => Some((p.0, p.1@)),
                    None => None,
                };
                if released {
                    &&& final(self).list.filter.selected_idx == sel
                    &&& if o.next_key is Some && key@ == KeyView::Named(NamedKey::Control)
                        && o.next_key_view()->Some_0.modifiers.control {
                        &&& r.0 == PaletteOutcome::Close
                        &&& acc == (if o.has_items {
                            o.accepted()
                        } else {
                            None
                        })
                    } else {
                        r.0 == PaletteOutcome::Ignored && acc is None
                    }
                } else if Self::is_key(key@, modifiers, o.next_key_view()) {
                    r.0 == PaletteOutcome::Handled && acc is None && final(self).list.filter.selected_idx
                        == down
                } else if Self::is_key(key@, modifiers, o.prev_key_view()) {
                    r.0 == PaletteOutcome::Handled && acc is None && final(self).list.filter.selected_idx
                        == up
                } else if key@ == KeyView::Named(NamedKey::Enter) {
                    r.0 == PaletteOutcome::Close && acc == o.accepted()
                        && final(self).list.filter.selected_idx == sel
                } else if key@ == KeyView::Named(NamedKey::Escape) {
                    r.0 == PaletteOutcome::Close && acc is None && final(self).list.filter.selected_idx
                        == sel
                } else if key@ == KeyView::Named(NamedKey::ArrowDown) {
                    r.0 == PaletteOutcome::Handled && acc is None && final(self).list.filter.selected_idx
                        == down
                } else if key@ == KeyView::Named(NamedKey::ArrowUp) {
                    r.0 == PaletteOutcome::Handled && acc is None && final(self).list.filter.selected_idx
                        == up
                } else {
                    r.0 == PaletteOutcome::Handled && acc is None && final(self).list.filter.selected_idx
                        == sel
                }
            }),
    {
        if released {
            match &self.next_key {
                Some(s) => {
                    let is_control = match key {
                        Key::Named(NamedKey::Control) => true,
                        _ => false,
                    };
                    if is_control && s.modifiers.control_key() {
                        let acc = if self.has_items {
                            self.accepted_entry()
                        } else {
                            None
                        };
                        return (PaletteOutcome::Close, acc);
                    }
                },
                None => {},
            }
            return (PaletteOutcome::Ignored, None);
        }
        let on_next = match &self.next_key {
            Some(s) => event_match(key, modifiers, s),
            None => false,
        };
        if on_next {
            self.list.filter.next();
            return (PaletteOutcome::Handled, None);
        }
        let on_prev = match &self.prev_key {
            Some(s) => event_match(key, modifiers, s),
            None => false,
        };
        if on_prev {
            self.list.filter.prev();
            return (PaletteOutcome::Handled, None);
        }
        match key {
            Key::Named(NamedKey::Enter) => (PaletteOutcome::Close, self.accepted_entry()),
            Key::Named(NamedKey::Escape) => (PaletteOutcome::Close, None),
            Key::Named(NamedKey::ArrowDown) => {
                self.list.filter.next();
                (PaletteOutcome::Handled, None)
            },
            Key::Named(NamedKey::ArrowUp) => {
                self.list.filter.prev();
                (PaletteOutcome::Handled, None)
            },
            _ => (PaletteOutcome::Handled, None),
        }
    }
}

/// An entry of a palette list: its id, its name and maybe a description.
pub trait PaletteItem<K: Clone + Copy> {
    fn id(&self) -> K;

    fn name(&self) -> String;

    fn description(&self) -> Option<String>;
}

impl PaletteItem<usize> for (usize, String) {
    fn id(&self) -> (r: usize)
        ensures
            r == self.0,
    {
        self.0
    }

    fn name(&self) -> (r: String)
        ensures
            r@ == self.1@,
    {
        self.1.clone()
    }

    fn description(&self) -> (r: Option<String>)
        ensures
            r is None,
    {
        None
    }
}

impl PaletteItem<usize> for (usize, String, String) {
    fn id(&self) -> (r: usize)
        ensures
            r == self.0,
    {
        self.0
    }

    fn name(&self) -> (r: String)
        ensures
            r@ == self.1@,
    {
        self.1.clone()
    }

    fn description(&self) -> (r: Option<String>)
        ensures
            r is Some && r->Some_0@ == self.2@,
    {
        Some(self.2.clone())
    }
}

/// The start of a palette for the widget `owner_id`, with an optional
/// description.
pub struct PaletteBuilder {
    pub owner_id: u64,
    pub description: Option<String>,
}

/// A palette builder that was given entries.
pub struct PaletteListBuilder {
    pub owner_id: u64,
    pub description: Option<String>,
    pub items: Vec<(usize, String)>,
}

pub open spec fn opt_view(o: Option<String>) -> Option<Seq<char>> {
    match o {
        Some(s) => Some(s@),
        None => None,
    }
}

impl PaletteBuilder {
    /// A palette for the widget `owner_id`, without description.
    pub fn new(owner_id: u64) -> (r: Self)
        ensures
            r.owner_id == owner_id,
            r.description is None,
    {
        PaletteBuilder { owner_id, description: None }
    }

    /// The same palette with the description `description`.
    pub fn description(self, description: &str) -> (r: Self)
        ensures
            r.owner_id == self.owner_id,
            opt_view(r.description) == Some(description@),
    {
        PaletteBuilder { owner_id: self.owner_id, description: Some(description.to_owned()) }
    }

    /// The same palette with the entries `items`.
    pub fn items(self, items: Vec<(usize, String)>) -> (r: PaletteListBuilder)
        ensures
            r.owner_id == self.owner_id,
            opt_view(r.description) == opt_view(self.description),
            r.items@ == items@,
    {
        PaletteListBuilder { owner_id: self.owner_id, description: self.description, items }
    }

    /// The free-text palette, with `action` applied to the text typed.
    pub fn build<A>(self, action: A) -> (r: FreePalette<A>)
        ensures
            r.owner_id == self.owner_id,
            opt_view(r.description) == opt_view(self.description),
            r.action == action,
            r.text@ == Seq::<char>::empty(),
    {
        FreePalette {
            owner_id: self.owner_id,
            description: self.description,
            action,
            text: String::new(),
        }
    }
}

impl PaletteListBuilder {
    /// The list palette, with `action` applied to the id of the chosen
    /// entry; every entry is shown, the first one current.
    pub fn build<A>(self, action: A) -> (r: ListPalette<A>)
        ensures
            r.wf(),
            r.owner_id == self.owner_id,
            opt_view(r.description) == opt_view(self.description),
            r.action == action,
            r.items@ == self.items@,
            r.query@ == Seq::<char>::empty(),
            r.shown@ == self.items@,
            r.current == 0,
    {
        let mut p = ListPalette {
            owner_id: self.owner_id,
            description: self.description,
            action,
            items: self.items,
            query: String::new(),
            shown: Vec::new(),
            current: 0,
            current_key: 0,
        };
        proof {
            reveal_strlit("");
        }
        p.set_query("");
        proof {
            lemma_matching_empty_query(p.items@);
        }
        p
    }
}

/// A palette where free text is typed.
pub struct FreePalette<A> {
    pub owner_id: u64,
    pub description: Option<String>,
    pub action: A,
    pub text: String,
}

impl<A> FreePalette<A> {
    /// The typed text became `text`.
    pub fn set_text(&mut self, text: &str)
        ensures
            final(self).text@ == text@,
            final(self).owner_id == old(self).owner_id,
    {
        self.text = text.to_owned();
    }

    /// Return was pressed: the palette closes, and the action is applied to
    /// the typed text unless it is empty.
    pub fn enter(&self) -> (r: Option<String>)
        ensures
            match r {
                Some(t) => t@ == self.text@ && self.text@.len() > 0,
                None => self.text@.len() == 0,
            },
    {
        if self.text.as_str().is_empty() {
            None
        } else {
            Some(self.text.clone())
        }
    }
}

/// The entries of `items` whose name holds `query`, in order.
pub open spec fn matching(items: Seq<(usize, String)>, query: Seq<char>) -> Seq<(usize, String)>
    decreases items.len(),
{
    if items.len() == 0 {
        items
    } else if occurs_in(items.last().1@, query) {
        matching(items.drop_last(), query).push(items.last())
    } else {
        matching(items.drop_last(), query)
    }
}

proof fn lemma_matching_empty_query(items: Seq<(usize, String)>)
    ensures
        matching(items, Seq::<char>::empty()) == items,
    decreases items.len(),
{
    if items.len() > 0 {
        lemma_matching_empty_query(items.drop_last());
        lemma_occurs_empty(items.last().1@);
        assert(items.drop_last().push(items.last()) =~= items);
    }
}

proof fn lemma_occurs_empty(s: Seq<char>)
    ensures
        occurs_in(s, Seq::<char>::empty()),
{
    assert(s.subrange(0, 0) =~= Seq::<char>::empty());
    assert(crate::rope_utils::occurs_at(s, Seq::<char>::empty(), 0));
}

/// A palette showing a list: the entries whose name holds the typed text,
/// one of them current.
pub struct ListPalette<A> {
    pub owner_id: u64,
    pub description: Option<String>,
    pub action: A,
    pub items: Vec<(usize, String)>,
    pub query: String,
    pub shown: Vec<(usize, String)>,
    pub current: usize,
    pub current_key: usize,
}

impl<A> ListPalette<A> {
    /// The shown entries are those that match the typed text; the current
    /// place stands among them, and its id is the current key.
    pub open spec fn wf(self) -> bool {
        &&& self.shown@ == matching(self.items@, self.query@)
        &&& self.shown@.len() > 0 ==> {
            &&& self.current < self.shown@.len()
            &&& self.current_key == self.shown@[self.current as int].0
        }
        &&& self.shown@.len() == 0 ==> self.current == 0
    }

    /// The typed text became `query`: the entries whose name holds it are
    /// shown, the first of them current.
    pub fn set_query(&mut self, query: &str)
        ensures
            final(self).wf(),
            final(self).query@ == query@,
            final(self).items@ == old(self).items@,
            final(self).current == 0,
            final(self).shown@.len() == 0 ==> final(self).current_key == old(self).current_key,
            final(self).owner_id == old(self).owner_id,
            final(self).description == old(self).description,
            final(self).action == old(self).action,
    {
        let mut shown: Vec<(usize, String)> = Vec::new();
        let mut i: usize = 0;
        while i < self.items.len()
            invariant
                i <= self.items@.len(),
                shown@ == matching(self.items@.take(i as int), query@),
            decreases self.items@.len() - i,
        {
            proof {
                assert(self.items@.take(i + 1).drop_last() =~= self.items@.take(i as int));
            }
            let e = &self.items[i];
            if str_contains(e.1.as_str(), query) {
                shown.push((e.0, e.1.clone()));
            }
            i += 1;
        }
        assert(self.items@.take(self.items@.len() as int) =~= self.items@);
        self.query = query.to_owned();
        self.shown = shown;
        self.current = 0;
        if self.shown.len() > 0 {
            self.current_key = self.shown[0].0;
        }
    }

    /// Arrow up: the previous entry becomes current, if there is one.
    pub fn arrow_up(&mut self)
        requires
            old(self).wf(),
        ensures
            final(self).wf(),
            final(self).shown@ == old(self).shown@,
            final(self).items@ == old(self).items@,
            final(self).query@ == old(self).query@,
            final(self).current == (if old(self).current > 0 {
                old(self).current - 1
            } else {
                old(self).current as int
            }),
    {
        if self.current > 0 {
            self.current = self.current - 1;
            self.current_key = self.shown[self.current].0;
        }
    }

    /// Arrow down: the next entry becomes current, if there is one.
    pub fn arrow_down(&mut self)
        requires
            old(self).wf(),
            old(self).shown@.len() > 0,
        ensures
            final(self).wf(),
            final(self).shown@ == old(self).shown@,
            final(self).items@ == old(self).items@,
            final(self).query@ == old(self).query@,
            final(self).current == (if old(self).current + 1 < old(self).shown@.len() {
                old(self).current + 1
            } else {
                old(self).current as int
            }),
    {
        if self.current < self.shown.len() - 1 {
            self.current = self.current + 1;
            self.current_key = self.shown[self.current].0;
        }
    }

    /// Return was pressed: the palette closes, and the action is applied to
    /// the id of the current entry where one is shown.
    pub fn enter(&self) -> (r: Option<usize>)
        requires
            self.wf(),
        ensures
            r == (if self.shown@.len() > 0 {
                Some(self.shown@[self.current as int].0)
            } else {
                None
            }),
    {
        if self.shown.len() > 0 {
            Some(self.current_key)
        } else {
            None
        }
    }
}

} // verus!

//! The undo history of a document.
use vstd::prelude::*;
use ropey::Rope;
use crate::rope_utils::{char_is_alphanumeric, chars_of, is_alphanumeric};
use crate::selection::Selection;
use crate::text::{rope_clone, rope_text};

verus! {

/// What an edit did, which decides whether it starts a new undo step.
#[derive(Debug)]
pub enum Action {
    NoAction,
    Backspace,
    Delete,
    Text(String),
}

/// An `Action` with its text seen as chars.
pub enum ActionView {
    NoAction,
    Backspace,
    Delete,
    Text(Seq<char>),
}

impl View for Action {
    type V = ActionView;

    open spec fn view(&self) -> ActionView {
        match self {
            Action::NoAction => ActionView::NoAction,
            Action::Backspace => ActionView::Backspace,
            Action::Delete => ActionView::Delete,
            Action::Text(s) => ActionView::Text(s@),
        }
    }
}

impl Action {
    /// A copy of this action.
    pub fn duplicate(&self) -> (r: Action)
        ensures
            r@ == self@,
    {
        match self {
            Action::NoAction => Action::NoAction,
            Action::Backspace => Action::Backspace,
            Action::Delete => Action::Delete,
            Action::Text(s) => Action::Text(s.clone()),
        }
    }
}

/// A saved state of a document: its text and its selections.
pub type Snapshot = (Seq<char>, Seq<Selection>);

/// The stack of saved states: `edit_stack[..edit_stack_top]` can be undone
/// to, the entries above the top can be redone.
pub struct History {
    pub(crate) edit_stack: Vec<(Rope, Vec<Selection>)>,
    pub(crate) edit_stack_top: usize,
    pub(crate) last_action: Action,
}

pub struct HistoryView {
    pub stack: Seq<Snapshot>,
    pub top: nat,
    pub last_action: ActionView,
}

pub open spec fn snapshot_of(e: (Rope, Vec<Selection>)) -> Snapshot {
    (rope_text(e.0), e.1@)
}

impl View for History {
    type V = HistoryView;

    closed spec fn view(&self) -> HistoryView {
        HistoryView {
            stack: self.edit_stack@.map_values(|e: (Rope, Vec<Selection>)| snapshot_of(e)),
            top: self.edit_stack_top as nat,
            last_action: self.last_action@,
        }
    }
}

/// Whether an edit with `action`, after one with `last_action`, starts a
/// new undo step: always on an empty history; a delete or a backspace that
/// does not continue a run of the same key; a text of several chars; a text
/// that starts with a char that is not alphanumeric.
pub open spec fn spec_should_push(is_empty: bool, action: ActionView, last_action: ActionView) -> bool {
    if is_empty {
        true
    } else {
        match (action, last_action) {
            (ActionView::Delete, ActionView::Delete) => false,
            (ActionView::Backspace, ActionView::Backspace) => false,
            (ActionView::Delete, _) => true,
            (ActionView::Backspace, _) => true,
            (ActionView::Text(t), _) => t.len() > 1 || (t.len() == 1 && !char_is_alphanumeric(t[0])),
            (_, _) => false,
        }
    }
}

impl HistoryView {
    pub open spec fn wf(self) -> bool {
        self.top <= self.stack.len()
    }

    pub open spec fn is_empty(self) -> bool {
        self.top == 0
    }

    /// The history after an edit with `action` from the state `snap`.
    pub open spec fn pushed(self, snap: Snapshot, action: ActionView) -> HistoryView {
        if spec_should_push(self.is_empty(), action, self.last_action) {
            HistoryView {
                stack: self.stack.take(self.top as int).push(snap),
                top: self.top + 1,
                last_action: action,
            }
        } else {
            HistoryView { last_action: action, ..self }
        }
    }

    /// The stack once `undo` has saved the current state `cur` on it.
    pub open spec fn saved(self, cur: Snapshot) -> Seq<Snapshot> {
        if self.top == self.stack.len() {
            self.stack.push(cur)
        } else {
            self.stack
        }
    }

    /// The history after `undo` from the state `cur`.
    pub open spec fn undone(self, cur: Snapshot) -> HistoryView {
        HistoryView {
            stack: self.saved(cur),
            top: if self.top > 0 {
                (self.top - 1) as nat
            } else {
                0
            },
            ..self
        }
    }

    /// What `undo` from the state `cur` gives back.
    pub open spec fn undo_result(self, cur: Snapshot) -> Option<Snapshot> {
        if self.top > 0 {
            Some(self.saved(cur)[self.top - 1])
        } else {
            None
        }
    }

    /// The history after `redo`.
    pub open spec fn redone(self) -> HistoryView {
        if self.top + 1 < self.stack.len() {
            HistoryView { top: self.top + 1, ..self }
        } else {
            self
        }
    }

    /// What `redo` gives back.
    pub open spec fn redo_result(self) -> Option<Snapshot> {
        if self.top + 1 < self.stack.len() {
            Some(self.stack[self.top + 1int])
        } else {
            None
        }
    }
}

/// A copy of a list of selections.
pub fn copy_selections(v: &Vec<Selection>) -> (r: Vec<Selection>)
    ensures
        r@ == v@,
{
    let mut r: Vec<Selection> = Vec::new();
    for i in 0..v.len()
        invariant
            r@ == v@.take(i as int),
    {
        r.push(v[i]);
    }
    assert(v@.take(v@.len() as int) =~= v@);
    r
}

impl History {
    /// An empty history.
    pub fn new() -> (h: History)
        ensures
            h@.stack == Seq::<Snapshot>::empty(),
            h@.top == 0,
            h@.last_action == ActionView::NoAction,
    {
        let h = History { edit_stack: Vec::new(), edit_stack_top: 0, last_action: Action::NoAction };
        assert(h@.stack =~= Seq::<Snapshot>::empty());
        h
    }

    /// Whether nothing can be undone.
    pub fn is_empty(&self) -> (r: bool)
        ensures
            r == self@.is_empty(),
    {
        self.edit_stack_top == 0
    }

    fn should_push(&self, action: &Action, last_action: &Action) -> (r: bool)
        ensures
            r == spec_should_push(self@.is_empty(), action@, last_action@),
    {
        if self.is_empty() {
            return true;
        }
        match (action, last_action) {
            (Action::Delete, Action::Delete) => false,
            (Action::Backspace, Action::Backspace) => false,
            (Action::Delete, _) => true,
            (Action::Backspace, _) => true,
            (Action::Text(t), _) => {
                let chars = chars_of(t.as_str());
                if chars.len() > 1 {
                    true
                } else if chars.len() == 1 {
                    !is_alphanumeric(chars[0])
                } else {
                    false
                }
            },
            (_, _) => false,
        }
    }

    /// Records the state `(rope, selections)` from before an edit with
    /// `action`, when that edit starts a new undo step; the redo entries are
    /// dropped then.
    pub fn push(&mut self, rope: Rope, selections: Vec<Selection>, action: &Action)
        requires
            old(self)@.wf(),
        ensures
            final(self)@ == old(self)@.pushed((rope_text(rope), selections@), action@),
            final(self)@.wf(),
    {
        let ghost snap = (rope_text(rope), selections@);
        if self.should_push(action, &self.last_action) {
            self.edit_stack.truncate(self.edit_stack_top);
            self.edit_stack.push((rope, selections));
            let _len = self.edit_stack.len();
            self.edit_stack_top = self.edit_stack_top + 1;
            proof {
                assert(self@.stack =~= old(self)@.stack.take(old(self)@.top as int).push(snap));
            }
        }
        self.last_action = action.duplicate();
        proof {
            let a = old(self)@.pushed(snap, action@);
            assert(self@.stack =~= a.stack);
        }
    }

    fn entry(&self, i: usize) -> (r: (Rope, Vec<Selection>))
        requires
            i < self.edit_stack@.len(),
        ensures
            snapshot_of(r) == self@.stack[i as int],
    {
        let e = &self.edit_stack[i];
        (rope_clone(&e.0), copy_selections(&e.1))
    }

    /// Steps back one entry, saving the current state `(rope, selections)`
    /// first when nothing is above the top; gives back the state to restore.
    pub fn undo(&mut self, rope: Rope, selections: Vec<Selection>) -> (r: Option<(Rope, Vec<Selection>)>)
        requires
            old(self)@.wf(),
        ensures
            final(self)@ == old(self)@.undone((rope_text(rope), selections@)),
            final(self)@.wf(),
            r.is_some() == old(self)@.undo_result((rope_text(rope), selections@)).is_some(),
            r.is_some() ==> Some(snapshot_of(r.unwrap())) == old(self)@.undo_result(
                (rope_text(rope), selections@),
            ),
    {
        let ghost cur = (rope_text(rope), selections@);
        if self.edit_stack_top == self.edit_stack.len() {
            self.edit_stack.push((rope, selections));
            proof {
                assert(self@.stack =~= old(self)@.stack.push(cur));
            }
        }
        assert(self@.stack =~= old(self)@.saved(cur));
        if self.edit_stack_top > 0 {
            self.edit_stack_top = self.edit_stack_top - 1;
            Some(self.entry(self.edit_stack_top))
        } else {
            None
        }
    }

    /// Steps forward one entry when there is one above the top; gives back
    /// the state to restore.
    pub fn redo(&mut self) -> (r: Option<(Rope, Vec<Selection>)>)
        requires
            old(self)@.wf(),
        ensures
            final(self)@ == old(self)@.redone(),
            final(self)@.wf(),
            r.is_some() == old(self)@.redo_result().is_some(),
            r.is_some() ==> Some(snapshot_of(r.unwrap())) == old(self)@.redo_result(),
    {
        let len = self.edit_stack.len();
        if len > 0 && self.edit_stack_top < len - 1 {
            self.edit_stack_top = self.edit_stack_top + 1;
            Some(self.entry(self.edit_stack_top))
        } else {
            None
        }
    }
}

/// Undo after an edit that started a new undo step gives back the state
/// from before that edit.
pub proof fn lemma_undo_after_edit(h: HistoryView, before: Snapshot, action: ActionView, cur: Snapshot)
    requires
        h.wf(),
        spec_should_push(h.is_empty(), action, h.last_action),
    ensures
        h.pushed(before, action).undo_result(cur) == Some(before),
{
    let p = h.pushed(before, action);
    assert(p.top == p.stack.len());
    assert(p.saved(cur)[p.top - 1] == before);
}

/// Typed text is grouped into undo steps at word boundaries. On a history
/// with something to undo: typing a single char that is not alphanumeric
/// (such as a space) starts a new step, saving the state from before it as
/// the one that undo gives back; typing a single alphanumeric char adds to
/// the current step and leaves the saved states as they were; typing
/// several chars at once starts a new step.
pub proof fn lemma_typing_undo_steps(h: HistoryView, snap: Snapshot, t: Seq<char>, cur: Snapshot)
    requires
        h.wf(),
        !h.is_empty(),
    ensures
        t.len() == 1 && !char_is_alphanumeric(t[0]) ==> {
            let p = h.pushed(snap, ActionView::Text(t));
            &&& p.top == h.top + 1
            &&& p.undo_result(cur) == Some(snap)
        },
        t.len() == 1 && char_is_alphanumeric(t[0]) ==> {
            let p = h.pushed(snap, ActionView::Text(t));
            &&& p.top == h.top
            &&& p.stack == h.stack
            &&& p.undo_result(cur) == h.undo_result(cur)
        },
        t.len() > 1 ==> h.pushed(snap, ActionView::Text(t)).undo_result(cur) == Some(snap),
{
    if spec_should_push(h.is_empty(), ActionView::Text(t), h.last_action) {
        lemma_undo_after_edit(h, snap, ActionView::Text(t), cur);
    }
}

/// Redo right after an undo from the newest state gives back that state.
pub proof fn lemma_redo_after_undo(h: HistoryView, cur: Snapshot)
    requires
        h.wf(),
        h.top == h.stack.len(),
        h.top > 0,
    ensures
        h.undone(cur).redo_result() == Some(cur),
        h.undone(cur).redone().top == h.top,
{
}

} // verus!

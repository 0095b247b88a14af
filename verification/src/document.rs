//! The document: a rope of text with selections, file information and an
//! undo history, and the editing operations on it.
use vstd::prelude::*;
use ropey::Rope;
use crate::rope_utils::{
    chars_of, char_to_grapheme, grapheme_after, grapheme_before, grapheme_start, grapheme_to_char,
    next_grapheme_boundary, next_word_boundary, prev_grapheme_boundary, prev_word_boundary,
    spec_char_to_grapheme, spec_next_word_boundary, spec_prev_word_boundary, spec_word_end,
    spec_word_start, word_end, word_start, text_lines, lines_of, is_grapheme_of, lemma_grapheme_of_unique,
    char_is_alphanumeric,
};
use crate::selection::{lemma_selection_bounds, Position, Selection};
use crate::history::{
    copy_selections, lemma_redo_after_undo, lemma_undo_after_edit, spec_should_push, Action,
    ActionView, History, HistoryView, Snapshot,
};
use crate::file_info::{FileInfo, Indentation, LineFeed};
use crate::text::{
    breaks_before, lemma_breaks_before_bounds, lemma_char_line, lemma_line_start, line_count, line_start, line_text,
    rope_char_to_line, rope_clone, rope_insert, rope_len_chars, rope_len_lines, rope_line_to_char,
    rope_new, rope_remove, rope_slice_string, rope_text, rope_to_string,
};

verus! {

/// The chars of line `l` of `rope`, its line break included.
pub fn rope_line(rope: &Rope, l: usize) -> (s: String)
    requires
        l < line_count(rope_text(*rope)),
    ensures
        s@ == line_text(rope_text(*rope), l as int),
{
    proof {
        lemma_line_start(rope_text(*rope), l as int);
        if l + 1 < line_count(rope_text(*rope)) {
            lemma_line_start(rope_text(*rope), l + 1);
        }
    }
    let _n = rope_len_lines(rope);
    let a = rope_line_to_char(rope, l);
    let b = rope_line_to_char(rope, l + 1);
    rope_slice_string(rope, a, b)
}

/// The number of chars of the line ending (CRLF, LF or CR) at the end of
/// `s`.
pub open spec fn linefeed_len(s: Seq<char>) -> nat {
    if s.len() >= 2 && s[s.len() - 2] == '\r' && s[s.len() - 1] == '\n' {
        2
    } else if s.len() >= 1 && (s[s.len() - 1] == '\n' || s[s.len() - 1] == '\r') {
        1
    } else {
        0
    }
}

/// The number of chars of line `l`, its CRLF, LF or CR ending left out.
pub open spec fn spec_line_len_char(t: Seq<char>, l: int) -> nat {
    (line_text(t, l).len() - linefeed_len(line_text(t, l))) as nat
}

/// The length of a line in chars, without its CRLF, LF or CR ending.
pub fn line_len_char(rope: &Rope, line_idx: usize) -> (r: usize)
    requires
        line_idx < line_count(rope_text(*rope)),
    ensures
        r == spec_line_len_char(rope_text(*rope), line_idx as int),
{
    let r = chars_of(rope_line(rope, line_idx).as_str());
    let n = r.len();
    let linefeed_len: usize = if n >= 2 && r[n - 2] == '\r' && r[n - 1] == '\n' {
        2
    } else if n >= 1 && (r[n - 1] == '\n' || r[n - 1] == '\r') {
        1
    } else {
        0
    };
    n - linefeed_len
}

/// The length of a line in chars, its line break included.
pub fn line_len_char_full(rope: &Rope, line_idx: usize) -> (r: usize)
    requires
        line_idx < line_count(rope_text(*rope)),
    ensures
        r == line_text(rope_text(*rope), line_idx as int).len(),
{
    proof {
        lemma_line_start(rope_text(*rope), line_idx as int);
    }
    let _n = rope_len_lines(rope);
    rope_line_to_char(rope, line_idx + 1) - rope_line_to_char(rope, line_idx)
}

/// The char index of a position: the start of its line plus the chars of
/// its first `column` graphemes.
pub open spec fn spec_position_to_char(t: Seq<char>, p: Position) -> int {
    line_start(t, p.line as int) + grapheme_start(line_text(t, p.line as int), p.column as nat)
}

/// The position of a char index: its line, and the number of graphemes of
/// the line that start before it.
pub open spec fn spec_char_to_position(t: Seq<char>, c: int) -> Position {
    let l = breaks_before(t, c);
    Position::new_spec(
        l as usize,
        spec_char_to_grapheme(line_text(t, l as int), c - line_start(t, l as int)) as usize,
    )
}

/// Char index `c` of `t` is a grapheme cluster boundary of its line: the
/// walk over the graphemes of the line stops exactly there, after no more
/// graphemes than chars.
pub open spec fn is_cluster_boundary(t: Seq<char>, c: int) -> bool {
    let l = breaks_before(t, c) as int;
    let r = c - line_start(t, l);
    exists|g: nat|
        g <= r && is_grapheme_of(line_text(t, l), r, g) && #[trigger] grapheme_start(line_text(t, l), g) == r
}

/// The position of a char index that is a grapheme cluster boundary gives
/// that char index back.
pub proof fn lemma_position_of_char_round_trip(t: Seq<char>, c: int)
    requires
        0 <= c <= t.len(),
        t.len() <= usize::MAX,
        is_cluster_boundary(t, c),
    ensures
        spec_position_to_char(t, spec_char_to_position(t, c)) == c,
{
    lemma_char_line(t, c);
    let l = breaks_before(t, c) as int;
    let line = line_text(t, l);
    let r = c - line_start(t, l);
    let g = choose|g: nat| g <= r && is_grapheme_of(line, r, g) && #[trigger] grapheme_start(line, g) == r;
    assert(exists|g: nat| g <= r && is_grapheme_of(line, r, g) && #[trigger] grapheme_start(line, g) == r);
    assert(g <= r);
    lemma_grapheme_of_unique(line, r, g);
    lemma_breaks_before_bounds(t, c, t.len() as int);
    assert(l < line_count(t));
    assert(l <= c) by {
        lemma_breaks_before_bounds(t, 0, c);
    }
    assert(spec_char_to_grapheme(line, r) == g);
    lemma_line_start(t, l);
    assert(line_start(t, l) <= c);
    assert(g <= usize::MAX);
    let p = spec_char_to_position(t, c);
    assert(p.line as int == l);
    assert(p.column as nat == g);
    assert(spec_position_to_char(t, p) == line_start(t, l) + grapheme_start(line, g));
}

/// Whether a position is on an existing line.
pub open spec fn valid_position(t: Seq<char>, p: Position) -> bool {
    p.line < line_count(t)
}

/// The char index of `position`.
pub fn position_to_char(rope: &Rope, position: Position) -> (r: usize)
    requires
        valid_position(rope_text(*rope), position),
    ensures
        r == spec_position_to_char(rope_text(*rope), position),
        r <= rope_text(*rope).len(),
{
    proof {
        lemma_line_start(rope_text(*rope), position.line as int);
        if position.line + 1 < line_count(rope_text(*rope)) {
            lemma_line_start(rope_text(*rope), position.line + 1);
        }
    }
    let _len = rope_len_chars(rope);
    let _n = rope_len_lines(rope);
    let l = rope_line_to_char(rope, position.line);
    let line = rope_line(rope, position.line);
    l + grapheme_to_char(line.as_str(), position.column)
}

/// The position of char index `char_idx`.
pub fn char_to_position(rope: &Rope, char_idx: usize) -> (r: Position)
    requires
        char_idx <= rope_text(*rope).len(),
    ensures
        r == spec_char_to_position(rope_text(*rope), char_idx as int),
        valid_position(rope_text(*rope), r),
{
    let ghost t = rope_text(*rope);
    proof {
        lemma_char_line(t, char_idx as int);
    }
    let line = rope_char_to_line(rope, char_idx);
    proof {
        lemma_line_start(t, line as int);
        if line + 1 < line_count(t) {
            lemma_line_start(t, line + 1);
        }
    }
    let start = rope_line_to_char(rope, line);
    let text = rope_line(rope, line);
    let column = char_to_grapheme(text.as_str(), char_idx - start);
    Position::new(line, column)
}

/// The number of graphemes of a line, its line ending left out.
pub fn line_len_grapheme(rope: &Rope, line_idx: usize) -> (r: usize)
    requires
        line_idx < line_count(rope_text(*rope)),
    ensures
        r == spec_char_to_grapheme(
            line_text(rope_text(*rope), line_idx as int),
            spec_line_len_char(rope_text(*rope), line_idx as int) as int,
        ),
{
    let line = rope_line(rope, line_idx);
    char_to_grapheme(line.as_str(), line_len_char(rope, line_idx))
}

/// The number of graphemes of a line, its line ending included.
pub fn line_len_grapheme_full(rope: &Rope, line_idx: usize) -> (r: usize)
    requires
        line_idx < line_count(rope_text(*rope)),
    ensures
        r == spec_char_to_grapheme(
            line_text(rope_text(*rope), line_idx as int),
            line_text(rope_text(*rope), line_idx as int).len() as int,
        ),
{
    let line = rope_line(rope, line_idx);
    char_to_grapheme(line.as_str(), line_len_char_full(rope, line_idx))
}

} // verus!

verus! {

/// The abstract state of a document: its text, its selections and its
/// undo history.
pub struct DocState {
    pub text: Seq<char>,
    pub sels: Seq<Selection>,
    pub hist: HistoryView,
}

/// All selection ends are on existing lines.
pub open spec fn sels_valid(t: Seq<char>, sels: Seq<Selection>) -> bool {
    forall|i: int|
        0 <= i < sels.len() ==> valid_position(t, (#[trigger] sels[i]).head) && valid_position(
            t,
            sels[i].tail,
        )
}

/// A selection end at char index `idx` moves to `idx + delta` in the new
/// text `t` when `idx >= threshold`, and stays otherwise.
pub open spec fn shift_pos(t: Seq<char>, p: Position, idx: int, threshold: int, delta: int) -> Position {
    if idx >= threshold {
        spec_char_to_position(t, idx + delta)
    } else {
        p
    }
}

pub open spec fn shift_sel(t_old: Seq<char>, t: Seq<char>, s: Selection, threshold: int, delta: int) -> Selection {
    Selection {
        head: shift_pos(t, s.head, spec_position_to_char(t_old, s.head), threshold, delta),
        tail: shift_pos(t, s.tail, spec_position_to_char(t_old, s.tail), threshold, delta),
        ..s
    }
}

/// Removes `start..end`: the selection ends at or after `end` move back with
/// the text; the others stay where they were.
pub open spec fn remove_range(t: Seq<char>, sels: Seq<Selection>, start: int, end: int) -> (Seq<char>, Seq<Selection>) {
    if start == end {
        (t, sels)
    } else {
        let t1 = t.take(start) + t.skip(end);
        (t1, sels.map_values(|s: Selection| shift_sel(t, t1, s, end, start - end)))
    }
}

/// Inserts `input` at `start`: the selection ends at or after `start` move
/// forward with the text.
pub open spec fn insert_text(t: Seq<char>, sels: Seq<Selection>, start: int, input: Seq<char>) -> (Seq<char>, Seq<Selection>) {
    if input.len() == 0 {
        (t, sels)
    } else {
        let t2 = t.take(start) + input + t.skip(start);
        (t2, sels.map_values(|s: Selection| shift_sel(t, t2, s, start, input.len() as int)))
    }
}

pub open spec fn action_text(a: ActionView) -> Seq<char> {
    match a {
        ActionView::Text(t) => t,
        _ => Seq::empty(),
    }
}

/// The state after replacing `start..end` by the text of `a`; the state
/// from before is saved in the history when anything changed.
pub open spec fn edit(st: DocState, a: ActionView, start: int, end: int) -> DocState {
    let r = remove_range(st.text, st.sels, start, end);
    let i = insert_text(r.0, r.1, start, action_text(a));
    DocState {
        text: i.0,
        sels: i.1,
        hist: if start != end || action_text(a).len() > 0 {
            st.hist.pushed((st.text, st.sels), a)
        } else {
            st.hist
        },
    }
}

/// The inputs on which an edit runs: a range of the text, selections on
/// existing lines, and, when text is inserted after a removal, selections
/// that are still on existing lines after the removal.
pub open spec fn edit_ok(st: DocState, a: ActionView, start: int, end: int) -> bool {
    let r = remove_range(st.text, st.sels, start, end);
    &&& 0 <= start <= end <= st.text.len()
    &&& sels_valid(st.text, st.sels)
    &&& action_text(a).len() > 0 ==> sels_valid(r.0, r.1)
}

proof fn lemma_remove_range_index(t: Seq<char>, sels: Seq<Selection>, start: int, end: int, i: int)
    requires
        start != end,
        0 <= i < sels.len(),
    ensures
        remove_range(t, sels, start, end).1[i] == shift_sel(
            t,
            remove_range(t, sels, start, end).0,
            sels[i],
            end,
            start - end,
        ),
        remove_range(t, sels, start, end).1.len() == sels.len(),
{
}

proof fn lemma_insert_text_index(t: Seq<char>, sels: Seq<Selection>, start: int, input: Seq<char>, i: int)
    requires
        input.len() > 0,
        0 <= i < sels.len(),
    ensures
        insert_text(t, sels, start, input).1[i] == shift_sel(
            t,
            insert_text(t, sels, start, input).0,
            sels[i],
            start,
            input.len() as int,
        ),
        insert_text(t, sels, start, input).1.len() == sels.len(),
{
}

/// Undo right after an edit that changed the text and started a new undo
/// step gives back the text and selections from before the edit.
pub proof fn lemma_undo_restores(st: DocState, a: ActionView, start: int, end: int)
    requires
        st.hist.wf(),
        start != end || action_text(a).len() > 0,
        spec_should_push(st.hist.is_empty(), a, st.hist.last_action),
    ensures
        ({
            let e = edit(st, a, start, end);
            e.hist.undo_result((e.text, e.sels)) == Some((st.text, st.sels))
        }),
{
    let e = edit(st, a, start, end);
    lemma_undo_after_edit(st.hist, (st.text, st.sels), a, (e.text, e.sels));
}

/// Typing non-empty text at the one cursor of a document with nothing to
/// undo makes it dirty; undo then gives back the text and selection from
/// before, whatever the document holds, and leaves nothing to undo; redo
/// right after gives back the state the undo left.
pub proof fn lemma_insert_undo_redo(st: DocState, input: Seq<char>, cur: Snapshot)
    requires
        st.hist.wf(),
        st.hist.is_empty(),
        st.sels.len() == 1,
        input.len() > 0,
    ensures
        ({
            let e = sel_edits(st, ActionView::Text(input), 0, 1);
            &&& !e.hist.is_empty()
            &&& e.hist.undo_result(cur) == Some((st.text, st.sels))
            &&& e.hist.undone(cur).is_empty()
            &&& e.hist.undone(cur).redo_result() == Some(cur)
        }),
{
    let e1 = sel_edit(st, ActionView::Text(input), 0);
    assert(sel_edits(e1, ActionView::Text(input), 1, 1) == e1);
    let h = e1.hist;
    assert(h.top == 1 && h.stack.len() == 1);
    lemma_redo_after_undo(h, cur);
}

/// Typing at the one cursor of a document: empty text leaves its history
/// as it was, non-empty text leaves it with something to undo (dirty).
pub proof fn lemma_insert_dirty(st: DocState, input: Seq<char>)
    requires
        st.hist.wf(),
        st.sels.len() == 1,
        st.sels[0].head.same_place(st.sels[0].tail),
    ensures
        ({
            let e = sel_edits(st, ActionView::Text(input), 0, 1);
            &&& input.len() == 0 ==> e.hist == st.hist
            &&& input.len() > 0 ==> !e.hist.is_empty()
        }),
{
    let e1 = sel_edit(st, ActionView::Text(input), 0);
    assert(sel_edits(e1, ActionView::Text(input), 1, 1) == e1);
    let sel = st.sels[0];
    assert(sel.spec_start().line == sel.spec_end().line && sel.spec_start().column == sel.spec_end().column);
}

/// Typing at cursors (selections whose ends are at one place): empty text
/// changes nothing, the history included; non-empty text leaves something
/// to undo; and a document that had something to undo keeps it. So after
/// a run of such edits from a clean document, it is dirty exactly when one
/// of the typed texts was not empty.
pub proof fn lemma_sel_edits_dirty(st: DocState, input: Seq<char>, i: int, n: int)
    requires
        0 <= i,
        n <= st.sels.len(),
    ensures
        input.len() == 0 && (forall|j: int| i <= j < n ==> (#[trigger] st.sels[j]).head.same_place(st.sels[j].tail))
            ==> sel_edits(st, ActionView::Text(input), i, n) == st,
        input.len() > 0 && i < n ==> !sel_edits(st, ActionView::Text(input), i, n).hist.is_empty(),
        !st.hist.is_empty() ==> !sel_edits(st, ActionView::Text(input), i, n).hist.is_empty(),
    decreases n - i,
{
    if i < n {
        let kind = ActionView::Text(input);
        let e = sel_edit(st, kind, i);
        if input.len() == 0 && (forall|j: int| i <= j < n ==> (#[trigger] st.sels[j]).head.same_place(st.sels[j].tail)) {
            assert(st.sels[i].head.same_place(st.sels[i].tail));
            assert(e == st);
        }
        lemma_sel_edits_dirty(e, input, i + 1, n);
    }
}

/// Typing at one cursor groups chars into undo steps at word boundaries:
/// after typing a char that is not alphanumeric (such as a space) and then
/// an alphanumeric one, undo gives back the text and selection from before
/// the first of them, whatever was typed before. So after typing "ab",
/// " " and "c" into an empty document, undo gives back "ab".
pub proof fn lemma_word_boundary_undo(st: DocState, c: char, d: char, cur: Snapshot)
    requires
        st.hist.wf(),
        st.sels.len() == 1,
        !char_is_alphanumeric(c),
        char_is_alphanumeric(d),
    ensures
        ({
            let e1 = sel_edits(st, ActionView::Text(seq![c]), 0, 1);
            let e2 = sel_edits(e1, ActionView::Text(seq![d]), 0, 1);
            e2.hist.undo_result(cur) == Some((st.text, st.sels))
        }),
{
    let kc = ActionView::Text(seq![c]);
    let kd = ActionView::Text(seq![d]);
    let e1 = sel_edit(st, kc, 0);
    assert(sel_edits(e1, kc, 1, 1) == e1);
    let r1 = step_range(st, kc, 0);
    lemma_edit_len(st, kc, r1.0, r1.1);
    assert(action_text(kc).len() > 0);
    assert(spec_should_push(st.hist.is_empty(), kc, st.hist.last_action));
    assert(e1.hist.top == e1.hist.stack.len());
    assert(e1.hist.stack[e1.hist.top - 1] == (st.text, st.sels));
    let e2 = sel_edit(e1, kd, 0);
    assert(sel_edits(e2, kd, 1, 1) == e2);
    assert(action_text(kd).len() > 0);
    assert(!spec_should_push(e1.hist.is_empty(), kd, e1.hist.last_action));
    assert(e2.hist.saved(cur)[e2.hist.top - 1] == (st.text, st.sels));
}

/// Redo right after undoing the newest state gives that state back.
pub proof fn lemma_redo_restores(h: HistoryView, cur: Snapshot)
    requires
        h.wf(),
        h.top == h.stack.len(),
        h.top > 0,
    ensures
        h.undone(cur).redo_result() == Some(cur),
{
    lemma_redo_after_undo(h, cur);
}

/// The selections ordered by their starts (line, column, visible column);
/// equal starts keep their order.
fn sort_by_start(v: &Vec<Selection>) -> (r: Vec<Selection>)
    ensures
        sorted_by_start(r@),
        r@.to_multiset() == v@.to_multiset(),
{
    broadcast use vstd::seq_lib::group_to_multiset_ensures;
    let mut r: Vec<Selection> = Vec::new();
    assert(v@.take(0) =~= Seq::<Selection>::empty());
    for i in 0..v.len()
        invariant
            sorted_by_start(r@),
            r@.to_multiset() == v@.take(i as int).to_multiset(),
    {
        let x = v[i];
        let xs = x.start();
        let mut pos: usize = 0;
        while pos < r.len() && !start_less(xs, r[pos].start())
            invariant
                pos <= r@.len(),
                forall|k: int| 0 <= k < pos ==> full_le(#[trigger] r@[k].spec_start(), xs),
            decreases r@.len() - pos,
        {
            pos = pos + 1;
        }
        let ghost old_r = r@;
        r.insert(pos, x);
        proof {
            assert(r@ == old_r.insert(pos as int, x));
            assert(v@.take(i + 1) =~= v@.take(i as int).push(x));
            vstd::seq_lib::to_multiset_build(v@.take(i as int), x);
            vstd::seq_lib::to_multiset_insert(old_r, pos as int, x);
            assert(r@.to_multiset() =~= v@.take(i + 1).to_multiset());
            assert forall|a: int, b: int| 0 <= a < b < r@.len() implies full_le(
                #[trigger] r@[a].spec_start(),
                #[trigger] r@[b].spec_start(),
            ) by {
                if b < pos {
                } else if a < pos && b == pos {
                } else if a < pos && b > pos {
                    assert(r@[b] == old_r[b - 1]);
                    if pos < old_r.len() {
                        assert(full_le(old_r[pos as int].spec_start(), old_r[b - 1].spec_start()) || b - 1 == pos);
                    }
                } else if a == pos {
                    assert(r@[b] == old_r[b - 1]);
                    assert(full_le(xs, old_r[pos as int].spec_start()));
                } else {
                    assert(r@[a] == old_r[a - 1]);
                    assert(r@[b] == old_r[b - 1]);
                }
            }
        }
    }
    assert(v@.take(v@.len() as int) =~= v@);
    r
}

/// `a` comes strictly before `b` in the order of the derived `Ord`.
fn start_less(a: Position, b: Position) -> (r: bool)
    ensures
        r == !full_le(b, a),
{
    a.line < b.line || (a.line == b.line && (a.column < b.column || (a.column == b.column && a.vcol < b.vcol)))
}

/// A list of one (non-clone) selection from `tail` to `head`.
fn single_selection(head: Position, tail: Position) -> (r: Vec<Selection>)
    ensures
        r@ == seq![Selection::new_spec(head, tail, false)],
{
    let mut r: Vec<Selection> = Vec::new();
    r.push(Selection::new(head, tail, false));
    assert(r@ =~= seq![Selection::new_spec(head, tail, false)]);
    r
}

/// The texts of the selections, from start to end, joined by `sep`.
pub open spec fn selection_contents(t: Seq<char>, sels: Seq<Selection>, sep: Seq<char>) -> Seq<char>
    decreases sels.len(),
{
    if sels.len() == 0 {
        Seq::empty()
    } else {
        let s = sels.last();
        let piece = t.subrange(
            spec_position_to_char(t, s.spec_start()),
            spec_position_to_char(t, s.spec_end()),
        );
        if sels.len() == 1 {
            piece
        } else {
            selection_contents(t, sels.drop_last(), sep) + sep + piece
        }
    }
}

/// The text that selection `s` covers, from its start to its end.
pub open spec fn selected_text(t: Seq<char>, s: Selection) -> Seq<char> {
    t.subrange(spec_position_to_char(t, s.spec_start()), spec_position_to_char(t, s.spec_end()))
}

/// The copied text of one selection is the text it covers.
pub proof fn lemma_selection_contents_single(t: Seq<char>, s: Selection, sep: Seq<char>)
    ensures
        selection_contents(t, seq![s], sep) == selected_text(t, s),
{
}

/// The copied text of several selections holds the separator between the
/// texts of consecutive selections: cut anywhere between two selections, it
/// is the copied text of those before the cut, the separator, and the
/// copied text of those after it. So two selections covering "foo" and
/// "bar", joined with a line feed, give "foo\nbar".
pub proof fn lemma_selection_contents_split(t: Seq<char>, sels: Seq<Selection>, sep: Seq<char>, k: int)
    requires
        0 < k < sels.len(),
    ensures
        selection_contents(t, sels, sep) == selection_contents(t, sels.take(k), sep) + sep
            + selection_contents(t, sels.skip(k), sep),
    decreases sels.len(),
{
    let n = sels.len() as int;
    let piece = selected_text(t, sels.last());
    let dl = sels.drop_last();
    if k == n - 1 {
        assert(sels.take(k) =~= dl);
        assert(sels.skip(k) =~= seq![sels.last()]);
        lemma_selection_contents_single(t, sels.last(), sep);
    } else {
        lemma_selection_contents_split(t, dl, sep, k);
        assert(dl.take(k) =~= sels.take(k));
        let tail = sels.skip(k);
        assert(tail.len() >= 2);
        assert(tail.drop_last() =~= dl.skip(k));
        assert(tail.last() == sels.last());
        let a = selection_contents(t, sels.take(k), sep);
        let b = selection_contents(t, dl.skip(k), sep);
        assert(selection_contents(t, tail, sep) == b + sep + piece);
        assert(selection_contents(t, sels, sep) == (a + sep + b) + sep + piece);
        assert((a + sep + b) + sep + piece =~= a + sep + (b + sep + piece));
    }
}

/// `a` comes before or at `b` in the order of the derived `Ord` of
/// positions: line, column, visible column.
pub open spec fn full_le(a: Position, b: Position) -> bool {
    a.line < b.line || (a.line == b.line && (a.column < b.column || (a.column == b.column && a.vcol
        <= b.vcol)))
}

/// Selections ordered by their starts.
pub open spec fn sorted_by_start(s: Seq<Selection>) -> bool {
    forall|i: int, j: int| 0 <= i < j < s.len() ==> full_le(#[trigger] s[i].spec_start(), #[trigger] s[j].spec_start())
}

/// The first index from `i` at which a selection collides with the next
/// one; `s.len()` when there is none.
pub open spec fn first_collision(s: Seq<Selection>, i: int) -> int
    decreases s.len() - i,
{
    if i < 0 || i + 1 >= s.len() {
        s.len() as int
    } else if s[i].spec_collide_with(s[i + 1]) {
        i
    } else {
        first_collision(s, i + 1)
    }
}

/// Merges the first colliding pair of neighbours into one, again and
/// again, until no neighbours collide.
pub open spec fn merge_all(s: Seq<Selection>) -> Seq<Selection>
    decreases s.len(),
{
    let i = first_collision(s, 0);
    if i < 0 || i + 1 >= s.len() {
        s
    } else {
        merge_all(s.update(i, s[i].spec_merge_with(s[i + 1])).remove(i + 1))
    }
}

proof fn lemma_first_collision(s: Seq<Selection>, i: int)
    requires
        0 <= i,
    ensures
        first_collision(s, i) == s.len() || (i <= first_collision(s, i) && first_collision(s, i) + 1 < s.len()
            && s[first_collision(s, i)].spec_collide_with(s[first_collision(s, i) + 1])),
        forall|j: int| i <= j < first_collision(s, i) && j + 1 < s.len() ==> !(#[trigger] s[j]).spec_collide_with(s[j + 1]),
    decreases s.len() - i,
{
    if i + 1 < s.len() && !s[i].spec_collide_with(s[i + 1]) {
        lemma_first_collision(s, i + 1);
    }
}

/// No two neighbours collide once everything is merged, and at least one
/// selection remains.
pub proof fn lemma_merge_all_no_collision(s: Seq<Selection>)
    requires
        s.len() >= 1,
    ensures
        merge_all(s).len() >= 1,
        merge_all(s).len() <= s.len(),
        forall|j: int| 0 <= j < merge_all(s).len() - 1 ==> !(#[trigger] merge_all(s)[j]).spec_collide_with(merge_all(s)[j + 1]),
    decreases s.len(),
{
    lemma_first_collision(s, 0);
    let i = first_collision(s, 0);
    if 0 <= i && i + 1 < s.len() {
        lemma_merge_all_no_collision(s.update(i, s[i].spec_merge_with(s[i + 1])).remove(i + 1));
    }
}

/// `r` is what merging gives for the selections `s`: `s` itself when there
/// is one, else the merge of some ordering of `s` by starts.
pub open spec fn is_merge_of(r: Seq<Selection>, s: Seq<Selection>) -> bool {
    if s.len() == 1 {
        r == s
    } else {
        exists|p: Seq<Selection>|
            #![trigger sorted_by_start(p)]
            sorted_by_start(p) && p.to_multiset() == s.to_multiset() && r == merge_all(p)
    }
}

/// Selections merged after a change (`move_selections`, the motions and
/// the other edits that end in a merge) are at least one, no more than
/// before, and no two neighbours collide.
pub proof fn lemma_merged_selections(r: Seq<Selection>, s: Seq<Selection>)
    requires
        s.len() >= 1,
        is_merge_of(r, s),
    ensures
        1 <= r.len() <= s.len(),
        forall|j: int| 0 <= j < r.len() - 1 ==> !(#[trigger] r[j]).spec_collide_with(r[j + 1]),
{
    if s.len() > 1 {
        let p = choose|p: Seq<Selection>| #![trigger sorted_by_start(p)]
            sorted_by_start(p) && p.to_multiset() == s.to_multiset() && r == merge_all(p);
        vstd::seq_lib::to_multiset_len(p);
        vstd::seq_lib::to_multiset_len(s);
        lemma_merge_all_no_collision(p);
    }
}

/// The range that an edit of kind `kind` replaces for selection `i`: the
/// selection itself, or for a cursor the grapheme before it (backspace) or
/// after it (delete).
pub open spec fn step_range(st: DocState, kind: ActionView, i: int) -> (int, int) {
    let sel = st.sels[i];
    let t = st.text;
    let a = spec_position_to_char(t, sel.spec_start());
    let b = spec_position_to_char(t, sel.spec_end());
    let cursor = sel.head.same_place(sel.tail);
    match kind {
        ActionView::Backspace => if cursor {
            (spec_position_to_char(t, spec_char_to_position(t, grapheme_before(t, a))), a)
        } else {
            (a, b)
        },
        ActionView::Delete => if cursor {
            (a, spec_position_to_char(t, spec_char_to_position(t, grapheme_after(t, a))))
        } else {
            (a, b)
        },
        _ => (a, b),
    }
}

/// The edit of kind `kind` at selection `i`.
pub open spec fn sel_edit(st: DocState, kind: ActionView, i: int) -> DocState {
    let r = step_range(st, kind, i);
    edit(st, kind, r.0, r.1)
}

/// The edit at selection `i` runs: the selection is on existing lines and
/// its range is ordered.
pub open spec fn sel_edit_ok(st: DocState, kind: ActionView, i: int) -> bool {
    let r = step_range(st, kind, i);
    &&& 0 <= i < st.sels.len()
    &&& valid_position(st.text, st.sels[i].head)
    &&& valid_position(st.text, st.sels[i].tail)
    &&& r.0 <= r.1
    &&& edit_ok(st, kind, r.0, r.1)
}

/// The edits at selections `i..n`, one after the other.
pub open spec fn sel_edits(st: DocState, kind: ActionView, i: int, n: int) -> DocState
    decreases n - i,
{
    if i >= n {
        st
    } else {
        sel_edits(sel_edit(st, kind, i), kind, i + 1, n)
    }
}

/// Each of the edits at selections `i..n` runs.
pub open spec fn sel_edits_ok(st: DocState, kind: ActionView, i: int, n: int) -> bool
    decreases n - i,
{
    i >= n || (sel_edit_ok(st, kind, i) && sel_edits_ok(sel_edit(st, kind, i), kind, i + 1, n))
}

proof fn lemma_invalid_at(t: Seq<char>, sels: Seq<Selection>, j: int)
    requires
        0 <= j < sels.len(),
        !valid_position(t, sels[j].tail),
    ensures
        !sels_valid(t, sels),
{
    let s = sels[j];
}

proof fn lemma_edit_len(st: DocState, a: ActionView, start: int, end: int)
    ensures
        edit(st, a, start, end).sels.len() == st.sels.len(),
{
}

/// The edits that type `lines[k]` at selection `k`, for `k` in `i..n`,
/// one after the other.
pub open spec fn line_edits(st: DocState, lines: Seq<Seq<char>>, i: int, n: int) -> DocState
    decreases n - i,
{
    if i >= n {
        st
    } else {
        line_edits(sel_edit(st, ActionView::Text(lines[i]), i), lines, i + 1, n)
    }
}

/// Each of those edits runs.
pub open spec fn line_edits_ok(st: DocState, lines: Seq<Seq<char>>, i: int, n: int) -> bool
    decreases n - i,
{
    i >= n || (sel_edit_ok(st, ActionView::Text(lines[i]), i) && line_edits_ok(
        sel_edit(st, ActionView::Text(lines[i]), i),
        lines,
        i + 1,
        n,
    ))
}

/// Pasting splits the text into lines, one per selection, when there are
/// several selections and as many lines.
pub open spec fn pastes_by_line(st: DocState, input: Seq<char>) -> bool {
    st.sels.len() > 1 && text_lines(input).len() == st.sels.len()
}

/// A document: its text, its selections, what is known of its file and its
/// undo history.
pub struct Document {
    pub id: usize,
    pub rope: Rope,
    pub history: History,
    pub file_info: FileInfo,
    pub selections: Vec<Selection>,
    pub file_name: Option<String>,
}

impl Document {
    pub open spec fn text(self) -> Seq<char> {
        rope_text(self.rope)
    }

    pub open spec fn state(self) -> DocState {
        DocState { text: self.text(), sels: self.selections@, hist: self.history@ }
    }

    pub open spec fn wf(self) -> bool {
        self.history@.wf()
    }

    /// An empty document with one cursor at the start, the given id,
    /// indentation and line ending, and no file.
    pub fn new(id: usize, indentation: Indentation, linefeed: LineFeed) -> (d: Document)
        ensures
            d.wf(),
            d.id == id,
            d.text() == Seq::<char>::empty(),
            d.selections@ == seq![Selection::default_spec()],
            d.history@.top == 0,
            d.history@.stack.len() == 0,
            d.file_info.indentation == indentation,
            d.file_info.linefeed == linefeed,
            d.file_name.is_none(),
    {
        let mut file_info = FileInfo::new(linefeed);
        file_info.indentation = indentation;
        let mut selections: Vec<Selection> = Vec::new();
        selections.push(Selection::default());
        Document {
            id,
            rope: rope_new(),
            history: History::new(),
            file_info,
            selections,
            file_name: None,
        }
    }

    /// The document's id.
    pub fn id(&self) -> (r: usize)
        ensures
            r == self.id,
    {
        self.id
    }

    /// Whether there is anything to undo.
    pub fn is_dirty(&self) -> (r: bool)
        ensures
            r == !self.history@.is_empty(),
    {
        !self.history.is_empty()
    }

    /// Forgets the undo history, as after saving.
    pub fn reset_edit_stack(&mut self)
        ensures
            final(self).history@.top == 0,
            final(self).history@.stack.len() == 0,
            final(self).wf(),
            final(self).text() == old(self).text(),
            final(self).selections@ == old(self).selections@,
            final(self).file_name == old(self).file_name,
            final(self).file_info == old(self).file_info,
            final(self).id == old(self).id,
    {
        self.history = History::new();
    }

    /// The char index of `position`.
    pub fn position_to_char(&self, position: Position) -> (r: usize)
        requires
            valid_position(self.text(), position),
        ensures
            r == spec_position_to_char(self.text(), position),
            r <= self.text().len(),
    {
        position_to_char(&self.rope, position)
    }

    /// The position of char index `char_idx`.
    pub fn char_to_position(&self, char_idx: usize) -> (r: Position)
        requires
            char_idx <= self.text().len(),
        ensures
            r == spec_char_to_position(self.text(), char_idx as int),
            valid_position(self.text(), r),
    {
        char_to_position(&self.rope, char_idx)
    }

    /// Replaces the chars in `start..end` by the text of `action`, moving the
    /// selection ends that follow the edit along with the text, and saves
    /// the state from before in the history.
    pub fn insert_at(&mut self, action: Action, start: usize, end: usize)
        requires
            old(self).wf(),
            edit_ok(old(self).state(), action@, start as int, end as int),
        ensures
            final(self).wf(),
            final(self).state() == edit(old(self).state(), action@, start as int, end as int),
            final(self).id == old(self).id,
            final(self).file_name == old(self).file_name,
            final(self).file_info == old(self).file_info,
    {
        let ghost st = self.state();
        let saved_action = action.duplicate();
        let input = match action {
            Action::Text(input) => input,
            _ => String::new(),
        };
        let mut changed = false;
        let histo_rope = rope_clone(&self.rope);
        let histo_selections = copy_selections(&self.selections);
        let ghost r = remove_range(st.text, st.sels, start as int, end as int);
        if start != end {
            let sel_idx = self.selection_indices();
            rope_remove(&mut self.rope, start, end);
            let to_sub = end - start;
            let n = self.selections.len();
            for i in 0..n
                invariant
                    n == self.selections@.len(),
                    n == sel_idx@.len(),
                    start < end <= st.text.len(),
                    r == remove_range(st.text, st.sels, start as int, end as int),
                    st.sels.len() == n,
                    to_sub == end - start,
                    self.history@ == st.hist,
                    self.id == old(self).id,
                    self.file_name == old(self).file_name,
                    self.file_info == old(self).file_info,
                    self.text() == st.text.take(start as int) + st.text.skip(end as int),
                    self.text() == r.0,
                    r.1.len() == n,
                    forall|k: int|
                        0 <= k < n ==> (#[trigger] sel_idx@[k]).0 == spec_position_to_char(
                            st.text,
                            st.sels[k].head,
                        ) && sel_idx@[k].1 == spec_position_to_char(st.text, st.sels[k].tail)
                            && sel_idx@[k].0 <= st.text.len() && sel_idx@[k].1 <= st.text.len(),
                    forall|k: int| 0 <= k < i ==> #[trigger] self.selections@[k] == r.1[k],
                    forall|k: int| i <= k < n ==> #[trigger] self.selections@[k] == st.sels[k],
            {
                let mut s = self.selections[i];
                if sel_idx[i].0 >= end {
                    s.head = char_to_position(&self.rope, sel_idx[i].0 - to_sub);
                }
                if sel_idx[i].1 >= end {
                    s.tail = char_to_position(&self.rope, sel_idx[i].1 - to_sub);
                }
                proof {
                    lemma_remove_range_index(st.text, st.sels, start as int, end as int, i as int);
                    assert(s == r.1[i as int]);
                }
                self.selections.set(i, s);
            }
            assert(self.selections@ =~= r.1);
            changed = true;
        }
        let ghost ins = insert_text(r.0, r.1, start as int, input@);
        let to_add_chars = chars_of(input.as_str());
        if !input.as_str().is_empty() {
            let sel_idx = self.selection_indices();
            rope_insert(&mut self.rope, start, input.as_str());
            let _len = rope_len_chars(&self.rope);
            let to_add = to_add_chars.len();
            let n = self.selections.len();
            for i in 0..n
                invariant
                    n == self.selections@.len(),
                    n == sel_idx@.len(),
                    start <= r.0.len(),
                    ins == insert_text(r.0, r.1, start as int, input@),
                    to_add == input@.len(),
                    self.text().len() <= usize::MAX,
                    self.history@ == st.hist,
                    self.id == old(self).id,
                    self.file_name == old(self).file_name,
                    self.file_info == old(self).file_info,
                    input@.len() > 0,
                    self.text() == r.0.take(start as int) + input@ + r.0.skip(start as int),
                    self.text() == ins.0,
                    ins.1.len() == n,
                    r.1.len() == n,
                    forall|k: int|
                        0 <= k < n ==> (#[trigger] sel_idx@[k]).0 == spec_position_to_char(
                            r.0,
                            r.1[k].head,
                        ) && sel_idx@[k].1 == spec_position_to_char(r.0, r.1[k].tail)
                            && sel_idx@[k].0 <= r.0.len() && sel_idx@[k].1 <= r.0.len(),
                    forall|k: int| 0 <= k < i ==> #[trigger] self.selections@[k] == ins.1[k],
                    forall|k: int| i <= k < n ==> #[trigger] self.selections@[k] == r.1[k],
            {
                let mut s = self.selections[i];
                if sel_idx[i].0 >= start {
                    s.head = char_to_position(&self.rope, sel_idx[i].0 + to_add);
                }
                if sel_idx[i].1 >= start {
                    s.tail = char_to_position(&self.rope, sel_idx[i].1 + to_add);
                }
                proof {
                    lemma_insert_text_index(r.0, r.1, start as int, input@, i as int);
                    assert(s == ins.1[i as int]);
                }
                self.selections.set(i, s);
            }
            assert(self.selections@ =~= ins.1);
            changed = true;
        }
        if changed {
            self.history.push(histo_rope, histo_selections, &saved_action);
        }
    }

    /// Restores the state from before the last undo step, saving the
    /// current state first when it is the newest one.
    pub fn undo(&mut self)
        requires
            old(self).wf(),
        ensures
            final(self).wf(),
            final(self).history@ == old(self).history@.undone((old(self).text(), old(self).selections@)),
            match old(self).history@.undo_result((old(self).text(), old(self).selections@)) {
                Some(snap) => final(self).text() == snap.0 && final(self).selections@ == snap.1,
                None => final(self).text() == old(self).text() && final(self).selections@ == old(self).selections@,
            },
            final(self).id == old(self).id,
            final(self).file_name == old(self).file_name,
            final(self).file_info == old(self).file_info,
    {
        let cur_rope = rope_clone(&self.rope);
        let cur_sels = copy_selections(&self.selections);
        if let Some((rope, selections)) = self.history.undo(cur_rope, cur_sels) {
            self.rope = rope;
            self.selections = selections;
        }
    }

    /// Restores the state that the last undo left, when there is one.
    pub fn redo(&mut self)
        requires
            old(self).wf(),
        ensures
            final(self).wf(),
            final(self).history@ == old(self).history@.redone(),
            match old(self).history@.redo_result() {
                Some(snap) => final(self).text() == snap.0 && final(self).selections@ == snap.1,
                None => final(self).text() == old(self).text() && final(self).selections@ == old(self).selections@,
            },
            final(self).id == old(self).id,
            final(self).file_name == old(self).file_name,
            final(self).file_info == old(self).file_info,
    {
        if let Some((rope, selections)) = self.history.redo() {
            self.rope = rope;
            self.selections = selections;
        }
    }

    /// The chars of the document.
    pub fn text_chars(&self) -> (r: Vec<char>)
        ensures
            r@ == self.text(),
    {
        chars_of(rope_to_string(&self.rope).as_str())
    }

    /// The position of the word boundary after `position`.
    pub fn next_word_boundary(&self, position: Position) -> (r: Position)
        requires
            valid_position(self.text(), position),
        ensures
            r == spec_char_to_position(
                self.text(),
                spec_next_word_boundary(self.text(), spec_position_to_char(self.text(), position)),
            ),
            valid_position(self.text(), r),
    {
        let chars = self.text_chars();
        let c = position_to_char(&self.rope, position);
        char_to_position(&self.rope, next_word_boundary(&chars, c))
    }

    /// The position of the word boundary before `position`.
    pub fn prev_word_boundary(&self, position: Position) -> (r: Position)
        requires
            valid_position(self.text(), position),
        ensures
            r == spec_char_to_position(
                self.text(),
                spec_prev_word_boundary(self.text(), spec_position_to_char(self.text(), position)),
            ),
            valid_position(self.text(), r),
    {
        let chars = self.text_chars();
        let c = position_to_char(&self.rope, position);
        char_to_position(&self.rope, prev_word_boundary(&chars, c))
    }

    /// The position one grapheme before `position` in the whole text.
    pub fn prev_position(&self, position: Position) -> (r: Position)
        requires
            valid_position(self.text(), position),
        ensures
            r == spec_char_to_position(
                self.text(),
                grapheme_before(self.text(), spec_position_to_char(self.text(), position)),
            ),
            valid_position(self.text(), r),
    {
        let char_idx = self.position_to_char(position);
        let text = rope_to_string(&self.rope);
        self.char_to_position(prev_grapheme_boundary(text.as_str(), char_idx))
    }

    /// The position one grapheme after `position` in the whole text.
    pub fn next_position(&self, position: Position) -> (r: Position)
        requires
            valid_position(self.text(), position),
        ensures
            r == spec_char_to_position(
                self.text(),
                grapheme_after(self.text(), spec_position_to_char(self.text(), position)),
            ),
            valid_position(self.text(), r),
    {
        let char_idx = self.position_to_char(position);
        let text = rope_to_string(&self.rope);
        self.char_to_position(next_grapheme_boundary(text.as_str(), char_idx))
    }

    /// The start of the word at `position`.
    pub fn word_start(&self, position: Position) -> (r: Position)
        requires
            valid_position(self.text(), position),
        ensures
            r == spec_char_to_position(
                self.text(),
                spec_word_start(self.text(), spec_position_to_char(self.text(), position)),
            ),
            valid_position(self.text(), r),
    {
        let chars = self.text_chars();
        let c = position_to_char(&self.rope, position);
        char_to_position(&self.rope, word_start(&chars, c))
    }

    /// The end of the word at `position`.
    pub fn word_end(&self, position: Position) -> (r: Position)
        requires
            valid_position(self.text(), position),
        ensures
            r == spec_char_to_position(
                self.text(),
                spec_word_end(self.text(), spec_position_to_char(self.text(), position)),
            ),
            valid_position(self.text(), r),
    {
        let chars = self.text_chars();
        let c = position_to_char(&self.rope, position);
        char_to_position(&self.rope, word_end(&chars, c))
    }

    /// Selects the word at `position`, the cursor at its end.
    pub fn select_word(&mut self, position: Position)
        requires
            valid_position(old(self).text(), position),
        ensures
            final(self).selections@ == seq![
                Selection::new_spec(old(self).word_end_spec(position), old(self).word_start_spec(position), false),
            ],
            final(self).text() == old(self).text(),
            final(self).history@ == old(self).history@,
            final(self).id == old(self).id,
            final(self).file_name == old(self).file_name,
            final(self).file_info == old(self).file_info,
    {
        let tail = self.word_start(position);
        let head = self.word_end(position);
        self.selections = single_selection(head, tail);
    }

    pub open spec fn word_start_spec(self, position: Position) -> Position {
        spec_char_to_position(
            self.text(),
            spec_word_start(self.text(), spec_position_to_char(self.text(), position)),
        )
    }

    pub open spec fn word_end_spec(self, position: Position) -> Position {
        spec_char_to_position(
            self.text(),
            spec_word_end(self.text(), spec_position_to_char(self.text(), position)),
        )
    }

    /// Extends the main selection, word by word, from its far end towards
    /// `position`.
    pub fn expand_selection_by_word(&mut self, position: Position)
        requires
            old(self).selections@.len() > 0,
            valid_position(old(self).text(), position),
        ensures
            ({
                let s0 = old(self).selections@[0];
                final(self).selections@ == if position.precedes(s0.tail) {
                    old(self).selections@.update(
                        0,
                        Selection { head: old(self).word_start_spec(position), tail: s0.spec_end(), ..s0 },
                    )
                } else if s0.tail.precedes(position) {
                    old(self).selections@.update(
                        0,
                        Selection { head: old(self).word_end_spec(position), tail: s0.spec_start(), ..s0 },
                    )
                } else {
                    old(self).selections@
                }
            }),
            final(self).text() == old(self).text(),
            final(self).history@ == old(self).history@,
            final(self).id == old(self).id,
            final(self).file_name == old(self).file_name,
            final(self).file_info == old(self).file_info,
    {
        let s0 = self.selections[0];
        if position < s0.tail {
            let end = s0.end();
            let head = self.word_start(position);
            self.selections.set(0, Selection { head, tail: end, ..s0 });
        } else if position > s0.tail {
            let start = s0.start();
            let head = self.word_end(position);
            self.selections.set(0, Selection { head, tail: start, ..s0 });
        }
    }

    pub open spec fn line_start_spec(self, line: int) -> Position {
        spec_char_to_position(self.text(), line_start(self.text(), line))
    }

    /// The position at the start of `line` (the end of the text for the
    /// line after the last one).
    pub fn line_start(&self, line: usize) -> (r: Position)
        requires
            line <= line_count(self.text()),
        ensures
            r == self.line_start_spec(line as int),
            valid_position(self.text(), r),
    {
        proof {
            if line < line_count(self.text()) {
                lemma_line_start(self.text(), line as int);
            }
        }
        char_to_position(&self.rope, rope_line_to_char(&self.rope, line))
    }

    /// The position at the end of `line`, before its line ending.
    pub fn line_end(&self, line: usize) -> (r: Position)
        requires
            line < line_count(self.text()),
        ensures
            r == spec_char_to_position(
                self.text(),
                line_start(self.text(), line as int) + spec_line_len_char(self.text(), line as int),
            ),
            valid_position(self.text(), r),
    {
        proof {
            lemma_line_start(self.text(), line as int);
            if line + 1 < line_count(self.text()) {
                lemma_line_start(self.text(), line + 1);
            }
        }
        let _len = rope_len_chars(&self.rope);
        char_to_position(&self.rope, rope_line_to_char(&self.rope, line) + line_len_char(&self.rope, line))
    }

    /// The position at the start of the line after `line`.
    pub fn line_end_full(&self, line: usize) -> (r: Position)
        requires
            line < line_count(self.text()),
        ensures
            r == self.line_start_spec(line + 1),
            valid_position(self.text(), r),
    {
        let _n = rope_len_lines(&self.rope);
        self.line_start(line + 1)
    }

    /// Extends the main selection, line by line, from its far end towards
    /// `position`.
    pub fn expand_selection_by_line(&mut self, position: Position)
        requires
            old(self).selections@.len() > 0,
            valid_position(old(self).text(), position),
        ensures
            ({
                let s0 = old(self).selections@[0];
                final(self).selections@ == if position.precedes(s0.tail) {
                    old(self).selections@.update(
                        0,
                        Selection { head: old(self).line_start_spec(position.line as int), tail: s0.spec_end(), ..s0 },
                    )
                } else if s0.tail.precedes(position) {
                    old(self).selections@.update(
                        0,
                        Selection { head: old(self).line_start_spec(position.line + 1), tail: s0.spec_start(), ..s0 },
                    )
                } else {
                    old(self).selections@
                }
            }),
            final(self).text() == old(self).text(),
            final(self).history@ == old(self).history@,
            final(self).id == old(self).id,
            final(self).file_name == old(self).file_name,
            final(self).file_info == old(self).file_info,
    {
        let s0 = self.selections[0];
        if position < s0.tail {
            let end = s0.end();
            let head = self.line_start(position.line);
            self.selections.set(0, Selection { head, tail: end, ..s0 });
        } else if position > s0.tail {
            let start = s0.start();
            let head = self.line_end_full(position.line);
            self.selections.set(0, Selection { head, tail: start, ..s0 });
        }
    }

    /// Selects `line` with its line ending, the cursor at the start of the
    /// next line.
    pub fn select_line(&mut self, line: usize)
        requires
            line < line_count(old(self).text()),
        ensures
            final(self).selections@ == seq![
                Selection::new_spec(old(self).line_start_spec(line + 1), old(self).line_start_spec(line as int), false),
            ],
            final(self).text() == old(self).text(),
            final(self).history@ == old(self).history@,
            final(self).id == old(self).id,
            final(self).file_name == old(self).file_name,
            final(self).file_info == old(self).file_info,
    {
        let tail = self.line_start(line);
        let head = self.line_end_full(line);
        self.selections = single_selection(head, tail);
    }

    /// Selects the whole text, the cursor at its end.
    pub fn select_all(&mut self)
        ensures
            final(self).selections@ == seq![
                Selection::new_spec(
                    spec_char_to_position(old(self).text(), old(self).text().len() as int),
                    spec_char_to_position(old(self).text(), 0),
                    false,
                ),
            ],
            final(self).text() == old(self).text(),
            final(self).history@ == old(self).history@,
            final(self).id == old(self).id,
            final(self).file_name == old(self).file_name,
            final(self).file_info == old(self).file_info,
    {
        let tail = char_to_position(&self.rope, 0);
        let head = char_to_position(&self.rope, rope_len_chars(&self.rope));
        self.selections = single_selection(head, tail);
    }

    /// Replaces all selections by one from `tail` to `head`.
    pub fn set_main_selection(&mut self, head: Position, tail: Position)
        ensures
            final(self).selections@ == seq![Selection::new_spec(head, tail, false)],
            final(self).text() == old(self).text(),
            final(self).history@ == old(self).history@,
            final(self).id == old(self).id,
            final(self).file_name == old(self).file_name,
            final(self).file_info == old(self).file_info,
    {
        self.selections = single_selection(head, tail);
    }

    /// Drops the extra cursors of a multi-cursor edit.
    pub fn cancel_multi_cursor(&mut self)
        ensures
            final(self).selections@ == old(self).selections@.filter(|s: Selection| !s.is_clone),
            final(self).text() == old(self).text(),
            final(self).history@ == old(self).history@,
            final(self).id == old(self).id,
            final(self).file_name == old(self).file_name,
            final(self).file_info == old(self).file_info,
    {
        let mut kept: Vec<Selection> = Vec::new();
        let ghost all = self.selections@;
        for i in 0..self.selections.len()
            invariant
                all == self.selections@,
                kept@ == all.take(i as int).filter(|s: Selection| !s.is_clone),
        {
            proof {
                reveal_with_fuel(Seq::<_>::filter, 1);
                assert(all.take(i + 1).drop_last() =~= all.take(i as int));
            }
            if !self.selections[i].is_clone {
                kept.push(self.selections[i]);
            }
        }
        assert(all.take(all.len() as int) =~= all);
        self.selections = kept;
    }

    /// The selected texts, joined by `separator`.
    pub fn get_selection_content(&self, separator: LineFeed) -> (r: String)
        requires
            sels_valid(self.text(), self.selections@),
            forall|i: int|
                0 <= i < self.selections@.len() ==> spec_position_to_char(
                    self.text(),
                    (#[trigger] self.selections@[i]).spec_start(),
                ) <= spec_position_to_char(self.text(), self.selections@[i].spec_end()),
        ensures
            r@ == selection_contents(self.text(), self.selections@, separator.spec_chars()),
    {
        let sep = separator.to_string();
        let mut r = String::new();
        for i in 0..self.selections.len()
            invariant
                sels_valid(self.text(), self.selections@),
                sep@ == separator.spec_chars(),
                forall|k: int|
                    0 <= k < self.selections@.len() ==> spec_position_to_char(
                        self.text(),
                        (#[trigger] self.selections@[k]).spec_start(),
                    ) <= spec_position_to_char(self.text(), self.selections@[k].spec_end()),
                r@ == selection_contents(self.text(), self.selections@.take(i as int), sep@),
        {
            let s = self.selections[i];
            proof {
                lemma_selection_bounds(s);
                assert(self.selections@.take(i + 1).drop_last() =~= self.selections@.take(i as int));
            }
            let a = position_to_char(&self.rope, s.start());
            let b = position_to_char(&self.rope, s.end());
            let piece = rope_slice_string(&self.rope, a, b);
            if i > 0 {
                r.append(sep.as_str());
            }
            r.append(piece.as_str());
        }
        assert(self.selections@.take(self.selections@.len() as int) =~= self.selections@);
        r
    }

    /// Orders the selections by their starts and merges colliding
    /// neighbours; a single selection is left as it is.
    pub fn merge_selections(&mut self)
        requires
            old(self).selections@.len() >= 1,
        ensures
            is_merge_of(final(self).selections@, old(self).selections@),
            final(self).selections@.len() >= 1,
            forall|j: int|
                0 <= j < final(self).selections@.len() - 1 && old(self).selections@.len() > 1
                    ==> !(#[trigger] final(self).selections@[j]).spec_collide_with(final(self).selections@[j + 1]),
            final(self).text() == old(self).text(),
            final(self).history@ == old(self).history@,
            final(self).id == old(self).id,
            final(self).file_name == old(self).file_name,
            final(self).file_info == old(self).file_info,
    {
        if self.selections.len() == 1 {
            return;
        }
        let sorted = sort_by_start(&self.selections);
        let ghost p = sorted@;
        proof {
            broadcast use vstd::seq_lib::group_to_multiset_ensures;
            vstd::seq_lib::to_multiset_len(p);
            vstd::seq_lib::to_multiset_len(old(self).selections@);
            assert(p.len() == old(self).selections@.len());
        }
        self.selections = sorted;
        proof {
            lemma_merge_all_no_collision(p);
        }
        let mut redo = true;
        while redo
            invariant
                merge_all(self.selections@) == merge_all(p),
                self.selections@.len() >= 1,
                !redo ==> merge_all(self.selections@) == self.selections@,
                self.text() == old(self).text(),
                self.history@ == old(self).history@,
                self.id == old(self).id,
                self.file_name == old(self).file_name,
                self.file_info == old(self).file_info,
            decreases self.selections@.len() + if redo { 1int } else { 0int },
        {
            redo = false;
            let n = self.selections.len();
            let mut i: usize = 0;
            let mut found = false;
            while i + 1 < n && !found
                invariant
                    !found ==> n == self.selections@.len(),
                    n >= 1,
                    i + 1 <= n,
                    self.text() == old(self).text(),
                    self.history@ == old(self).history@,
                    self.id == old(self).id,
                    self.file_name == old(self).file_name,
                    self.file_info == old(self).file_info,
                    merge_all(self.selections@) == merge_all(p),
                    !found ==> first_collision(self.selections@, 0) == first_collision(self.selections@, i as int),
                    found ==> redo && self.selections@.len() == n - 1 && n >= 2,
                    !found ==> !redo,
                decreases n - i + if found { 0int } else { 1int },
            {
                if self.selections[i].collide_with(self.selections[i + 1]) {
                    let ghost before = self.selections@;
                    let other = self.selections[i + 1];
                    let mut first = self.selections[i];
                    first.merge_with(other);
                    self.selections.set(i, first);
                    self.selections.remove(i + 1);
                    proof {
                        assert(first_collision(before, i as int) == i);
                        assert(self.selections@ =~= before.update(i as int, before[i as int].spec_merge_with(before[i + 1])).remove(i + 1));
                    }
                    redo = true;
                    found = true;
                } else {
                    i = i + 1;
                }
            }
            proof {
                if !found {
                    lemma_first_collision(self.selections@, i as int);
                }
            }
        }
    }

    /// Replaces the chars between two positions by the text of `action`.
    fn insert_at_position(&mut self, action: Action, start: Position, end: Position)
        requires
            old(self).wf(),
            valid_position(old(self).text(), start),
            valid_position(old(self).text(), end),
            spec_position_to_char(old(self).text(), start) <= spec_position_to_char(old(self).text(), end),
            edit_ok(
                old(self).state(),
                action@,
                spec_position_to_char(old(self).text(), start),
                spec_position_to_char(old(self).text(), end),
            ),
        ensures
            final(self).wf(),
            final(self).state() == edit(
                old(self).state(),
                action@,
                spec_position_to_char(old(self).text(), start),
                spec_position_to_char(old(self).text(), end),
            ),
            final(self).id == old(self).id,
            final(self).file_name == old(self).file_name,
            final(self).file_info == old(self).file_info,
    {
        let start = self.position_to_char(start);
        let end = self.position_to_char(end);
        self.insert_at(action, start, end);
    }

    /// The edit of kind `kind` at selection `i`.
    fn edit_selection(&mut self, kind: &Action, i: usize)
        requires
            old(self).wf(),
            sel_edit_ok(old(self).state(), kind@, i as int),
        ensures
            final(self).wf(),
            final(self).state() == sel_edit(old(self).state(), kind@, i as int),
            final(self).id == old(self).id,
            final(self).file_name == old(self).file_name,
            final(self).file_info == old(self).file_info,
    {
        let sel = self.selections[i];
        let action = kind.duplicate();
        proof {
            lemma_selection_bounds(sel);
        }
        match kind {
            Action::Backspace => {
                if sel.head == sel.tail {
                    let start = sel.start();
                    let prev = self.prev_position(start);
                    self.insert_at_position(action, prev, start);
                } else {
                    self.insert_at_position(action, sel.start(), sel.end());
                }
            },
            Action::Delete => {
                if sel.head == sel.tail {
                    let start = sel.start();
                    let next = self.next_position(start);
                    self.insert_at_position(action, start, next);
                } else {
                    self.insert_at_position(action, sel.start(), sel.end());
                }
            },
            _ => {
                self.insert_at_position(action, sel.start(), sel.end());
            },
        }
    }

    /// The edits of kind `kind` at every selection, in order.
    fn edit_selections(&mut self, kind: &Action)
        requires
            old(self).wf(),
            sel_edits_ok(old(self).state(), kind@, 0, old(self).selections@.len() as int),
        ensures
            final(self).wf(),
            final(self).state() == sel_edits(old(self).state(), kind@, 0, old(self).selections@.len() as int),
            final(self).selections@.len() == old(self).selections@.len(),
            final(self).id == old(self).id,
            final(self).file_name == old(self).file_name,
            final(self).file_info == old(self).file_info,
    {
        let n = self.selections.len();
        let ghost st0 = self.state();
        for i in 0..n
            invariant
                self.wf(),
                n == self.selections@.len(),
                sel_edits_ok(self.state(), kind@, i as int, n as int),
                sel_edits(self.state(), kind@, i as int, n as int) == sel_edits(st0, kind@, 0, n as int),
                self.id == old(self).id,
                self.file_name == old(self).file_name,
                self.file_info == old(self).file_info,
        {
            let ghost before = self.state();
            proof {
                let r = step_range(before, kind@, i as int);
                lemma_edit_len(before, kind@, r.0, r.1);
            }
            self.edit_selection(kind, i);
        }
    }

    /// Types `input` at every selection, replacing what is selected, then
    /// merges the selections that collide.
    pub fn insert(&mut self, input: &str)
        requires
            old(self).wf(),
            old(self).selections@.len() >= 1,
            sel_edits_ok(old(self).state(), ActionView::Text(input@), 0, old(self).selections@.len() as int),
        ensures
            final(self).wf(),
            ({
                let e = sel_edits(old(self).state(), ActionView::Text(input@), 0, old(self).selections@.len() as int);
                &&& final(self).text() == e.text
                &&& final(self).history@ == e.hist
                &&& is_merge_of(final(self).selections@, e.sels)
            }),
            final(self).id == old(self).id,
            final(self).file_name == old(self).file_name,
            final(self).file_info == old(self).file_info,
    {
        let kind = Action::Text(input.to_owned());
        self.edit_selections(&kind);
        self.merge_selections();
    }

    /// Pastes `input`: with several selections and as many lines in
    /// `input`, each line is typed at its selection; otherwise `input` is
    /// typed at every selection and the selections that collide are merged.
    pub fn insert_many(&mut self, input: &str)
        requires
            old(self).wf(),
            old(self).selections@.len() >= 1,
            pastes_by_line(old(self).state(), input@) ==> line_edits_ok(
                old(self).state(),
                text_lines(input@),
                0,
                old(self).selections@.len() as int,
            ),
            !pastes_by_line(old(self).state(), input@) ==> sel_edits_ok(
                old(self).state(),
                ActionView::Text(input@),
                0,
                old(self).selections@.len() as int,
            ),
        ensures
            final(self).wf(),
            pastes_by_line(old(self).state(), input@) ==> final(self).state() == line_edits(
                old(self).state(),
                text_lines(input@),
                0,
                old(self).selections@.len() as int,
            ),
            !pastes_by_line(old(self).state(), input@) ==> ({
                let e = sel_edits(old(self).state(), ActionView::Text(input@), 0, old(self).selections@.len() as int);
                &&& final(self).text() == e.text
                &&& final(self).history@ == e.hist
                &&& is_merge_of(final(self).selections@, e.sels)
            }),
            final(self).id == old(self).id,
            final(self).file_name == old(self).file_name,
            final(self).file_info == old(self).file_info,
    {
        let lines = lines_of(input);
        if self.selections.len() > 1 && lines.len() == self.selections.len() {
            let n = self.selections.len();
            let ghost st0 = self.state();
            let ghost tl = text_lines(input@);
            for i in 0..n
                invariant
                    self.wf(),
                    n == self.selections@.len(),
                    lines@.len() == n,
                    tl == text_lines(input@),
                    tl.len() == n,
                    forall|k: int| 0 <= k < n ==> (#[trigger] lines@[k])@ == tl[k],
                    line_edits_ok(self.state(), tl, i as int, n as int),
                    line_edits(self.state(), tl, i as int, n as int) == line_edits(st0, tl, 0, n as int),
                    self.id == old(self).id,
                    self.file_name == old(self).file_name,
                    self.file_info == old(self).file_info,
            {
                let ghost before = self.state();
                let kind = Action::Text(lines[i].clone());
                proof {
                    assert(kind@ == ActionView::Text(tl[i as int]));
                    let r = step_range(before, kind@, i as int);
                    lemma_edit_len(before, kind@, r.0, r.1);
                }
                self.edit_selection(&kind, i);
            }
        } else {
            self.insert(input);
        }
    }

    /// Deletes the selected text, or the grapheme before each cursor, then
    /// merges the selections that collide.
    pub fn backspace(&mut self)
        requires
            old(self).wf(),
            old(self).selections@.len() >= 1,
            sel_edits_ok(old(self).state(), ActionView::Backspace, 0, old(self).selections@.len() as int),
        ensures
            final(self).wf(),
            ({
                let e = sel_edits(old(self).state(), ActionView::Backspace, 0, old(self).selections@.len() as int);
                &&& final(self).text() == e.text
                &&& final(self).history@ == e.hist
                &&& is_merge_of(final(self).selections@, e.sels)
            }),
            final(self).id == old(self).id,
            final(self).file_name == old(self).file_name,
            final(self).file_info == old(self).file_info,
    {
        self.edit_selections(&Action::Backspace);
        self.merge_selections();
    }

    /// Deletes the selected text, or the grapheme after each cursor, then
    /// merges the selections that collide.
    pub fn delete(&mut self)
        requires
            old(self).wf(),
            old(self).selections@.len() >= 1,
            sel_edits_ok(old(self).state(), ActionView::Delete, 0, old(self).selections@.len() as int),
        ensures
            final(self).wf(),
            ({
                let e = sel_edits(old(self).state(), ActionView::Delete, 0, old(self).selections@.len() as int);
                &&& final(self).text() == e.text
                &&& final(self).history@ == e.hist
                &&& is_merge_of(final(self).selections@, e.sels)
            }),
            final(self).id == old(self).id,
            final(self).file_name == old(self).file_name,
            final(self).file_info == old(self).file_info,
    {
        self.edit_selections(&Action::Delete);
        self.merge_selections();
    }

    /// Whether all selection ends are on lines shorter than `n`... on lines
    /// below `n`.
    fn selections_below(&self, n: usize) -> (r: bool)
        ensures
            r == (forall|k: int|
                0 <= k < self.selections@.len() ==> (#[trigger] self.selections@[k]).head.line < n
                    && self.selections@[k].tail.line < n),
    {
        for k in 0..self.selections.len()
            invariant
                forall|j: int|
                    0 <= j < k ==> (#[trigger] self.selections@[j]).head.line < n
                        && self.selections@[j].tail.line < n,
        {
            if self.selections[k].head.line >= n || self.selections[k].tail.line >= n {
                return false;
            }
        }
        true
    }

    /// Whether the edit of kind `kind` at selection `i` runs.
    fn step_runs(&self, kind: &Action, i: usize) -> (r: bool)
        ensures
            r == sel_edit_ok(self.state(), kind@, i as int),
    {
        let ghost st = self.state();
        let ghost t = self.text();
        let count = rope_len_lines(&self.rope);
        if i >= self.selections.len() {
            return false;
        }
        let sel = self.selections[i];
        if sel.head.line >= count || sel.tail.line >= count {
            return false;
        }
        proof {
            lemma_selection_bounds(sel);
        }
        let a = self.position_to_char(sel.start());
        let b = self.position_to_char(sel.end());
        let cursor = sel.head == sel.tail;
        let (start, end) = match kind {
            Action::Backspace => if cursor {
                let prev = self.prev_position(sel.start());
                (self.position_to_char(prev), a)
            } else {
                (a, b)
            },
            Action::Delete => if cursor {
                let next = self.next_position(sel.start());
                (a, self.position_to_char(next))
            } else {
                (a, b)
            },
            _ => (a, b),
        };
        assert((start as int, end as int) == step_range(st, kind@, i as int));
        if start > end {
            return false;
        }
        if !self.selections_below(count) {
            proof {
                let k = choose|k: int|
                    0 <= k < self.selections@.len() && !((#[trigger] self.selections@[k]).head.line < count
                        && self.selections@[k].tail.line < count);
                assert(!(valid_position(t, st.sels[k].head) && valid_position(t, st.sels[k].tail)));
            }
            return false;
        }
        let inserts = match kind {
            Action::Text(s) => !s.as_str().is_empty(),
            _ => false,
        };
        assert(inserts == (action_text(kind@).len() > 0));
        if !inserts || start == end {
            return true;
        }
        let mut shorter = rope_clone(&self.rope);
        rope_remove(&mut shorter, start, end);
        let ghost t1 = rope_text(shorter);
        let ghost rr = remove_range(st.text, st.sels, start as int, end as int);
        assert(rr.0 == t1);
        let count1 = rope_len_lines(&shorter);
        let idx = self.selection_indices();
        let n = self.selections.len();
        for k in 0..n
            invariant
                n == self.selections@.len(),
                n == idx@.len(),
                st == self.state(),
                t == st.text,
                rr == remove_range(st.text, st.sels, start as int, end as int),
                rr.0 == t1,
                count1 == line_count(t1),
                start < end <= t.len(),
                (start as int, end as int) == step_range(st, kind@, i as int),
                action_text(kind@).len() > 0,
                sels_valid(t, st.sels),
                0 <= i < n,
                valid_position(t, st.sels[i as int].head),
                valid_position(t, st.sels[i as int].tail),
                t1.len() == t.len() - (end - start),
                forall|j: int|
                    0 <= j < n ==> (#[trigger] idx@[j]).0 == spec_position_to_char(t, st.sels[j].head)
                        && idx@[j].1 == spec_position_to_char(t, st.sels[j].tail) && idx@[j].0
                        <= t.len() && idx@[j].1 <= t.len(),
                forall|j: int|
                    0 <= j < k ==> valid_position(t1, (#[trigger] rr.1[j]).head) && valid_position(t1, rr.1[j].tail),
        {
            proof {
                lemma_remove_range_index(st.text, st.sels, start as int, end as int, k as int);
                if idx@[k as int].0 >= end {
                    lemma_char_line(t1, idx@[k as int].0 - (end - start));
                }
                if idx@[k as int].1 >= end {
                    lemma_char_line(t1, idx@[k as int].1 - (end - start));
                }
            }
            let s = self.selections[k];
            if idx[k].0 < end && s.head.line >= count1 {
                proof {
                    assert(rr.1[k as int].head == s.head);
                    assert(!sels_valid(rr.0, rr.1));
                }
                return false;
            }
            if idx[k].1 < end && s.tail.line >= count1 {
                proof {
                    let j = k as int;
                    let e = rr.1[j];
                    assert(e.tail == s.tail);
                    assert(!valid_position(rr.0, e.tail));
                    lemma_invalid_at(rr.0, rr.1, j);
                }
                return false;
            }
        }
        true
    }

    /// The edits of kind `kind` at every selection, in order, as far as they
    /// run; whether all of them ran.
    fn try_edit_selections(&mut self, kind: &Action) -> (r: bool)
        requires
            old(self).wf(),
        ensures
            final(self).wf(),
            r == sel_edits_ok(old(self).state(), kind@, 0, old(self).selections@.len() as int),
            r ==> final(self).state() == sel_edits(old(self).state(), kind@, 0, old(self).selections@.len() as int),
            final(self).selections@.len() == old(self).selections@.len(),
            final(self).id == old(self).id,
            final(self).file_name == old(self).file_name,
            final(self).file_info == old(self).file_info,
    {
        let n = self.selections.len();
        let ghost st0 = self.state();
        for i in 0..n
            invariant
                self.wf(),
                n == self.selections@.len(),
                n == old(self).selections@.len(),
                st0 == old(self).state(),
                sel_edits_ok(st0, kind@, 0, n as int) == sel_edits_ok(self.state(), kind@, i as int, n as int),
                sel_edits(self.state(), kind@, i as int, n as int) == sel_edits(st0, kind@, 0, n as int),
                self.id == old(self).id,
                self.file_name == old(self).file_name,
                self.file_info == old(self).file_info,
        {
            let ghost before = self.state();
            proof {
                let r = step_range(before, kind@, i as int);
                lemma_edit_len(before, kind@, r.0, r.1);
            }
            if !self.step_runs(kind, i) {
                assert(!sel_edits_ok(self.state(), kind@, i as int, n as int));
                return false;
            }
            self.edit_selection(kind, i);
        }
        true
    }

    /// `insert` when every edit runs: types `input` at every selection and
    /// merges them; gives `false`, having typed at the selections before
    /// the first edit that would not run, when one would not.
    pub fn try_insert(&mut self, input: &str) -> (r: bool)
        requires
            old(self).wf(),
        ensures
            final(self).wf(),
            r == (old(self).selections@.len() >= 1 && sel_edits_ok(
                old(self).state(),
                ActionView::Text(input@),
                0,
                old(self).selections@.len() as int,
            )),
            r ==> ({
                let e = sel_edits(old(self).state(), ActionView::Text(input@), 0, old(self).selections@.len() as int);
                &&& final(self).text() == e.text
                &&& final(self).history@ == e.hist
                &&& is_merge_of(final(self).selections@, e.sels)
            }),
    {
        if self.selections.len() == 0 {
            return false;
        }
        let kind = Action::Text(input.to_owned());
        if !self.try_edit_selections(&kind) {
            return false;
        }
        self.merge_selections();
        true
    }

    /// `backspace` when every edit runs; `false` when one would not.
    pub fn try_backspace(&mut self) -> (r: bool)
        requires
            old(self).wf(),
        ensures
            final(self).wf(),
            r == (old(self).selections@.len() >= 1 && sel_edits_ok(
                old(self).state(),
                ActionView::Backspace,
                0,
                old(self).selections@.len() as int,
            )),
            r ==> ({
                let e = sel_edits(old(self).state(), ActionView::Backspace, 0, old(self).selections@.len() as int);
                &&& final(self).text() == e.text
                &&& final(self).history@ == e.hist
                &&& is_merge_of(final(self).selections@, e.sels)
            }),
    {
        if self.selections.len() == 0 {
            return false;
        }
        if !self.try_edit_selections(&Action::Backspace) {
            return false;
        }
        self.merge_selections();
        true
    }

    /// `delete` when every edit runs; `false` when one would not.
    pub fn try_delete(&mut self) -> (r: bool)
        requires
            old(self).wf(),
        ensures
            final(self).wf(),
            r == (old(self).selections@.len() >= 1 && sel_edits_ok(
                old(self).state(),
                ActionView::Delete,
                0,
                old(self).selections@.len() as int,
            )),
            r ==> ({
                let e = sel_edits(old(self).state(), ActionView::Delete, 0, old(self).selections@.len() as int);
                &&& final(self).text() == e.text
                &&& final(self).history@ == e.hist
                &&& is_merge_of(final(self).selections@, e.sels)
            }),
    {
        if self.selections.len() == 0 {
            return false;
        }
        if !self.try_edit_selections(&Action::Delete) {
            return false;
        }
        self.merge_selections();
        true
    }

    /// The char indices of the heads and tails of the selections.
    fn selection_indices(&self) -> (r: Vec<(usize, usize)>)
        requires
            sels_valid(self.text(), self.selections@),
        ensures
            r@.len() == self.selections@.len(),
            forall|k: int|
                0 <= k < r@.len() ==> (#[trigger] r@[k]).0 == spec_position_to_char(
                    self.text(),
                    self.selections@[k].head,
                ) && r@[k].1 == spec_position_to_char(self.text(), self.selections@[k].tail)
                    && r@[k].0 <= self.text().len() && r@[k].1 <= self.text().len(),
    {
        let mut r: Vec<(usize, usize)> = Vec::new();
        for i in 0..self.selections.len()
            invariant
                sels_valid(self.text(), self.selections@),
                r@.len() == i,
                forall|k: int|
                    0 <= k < i ==> (#[trigger] r@[k]).0 == spec_position_to_char(
                        self.text(),
                        self.selections@[k].head,
                    ) && r@[k].1 == spec_position_to_char(self.text(), self.selections@[k].tail)
                        && r@[k].0 <= self.text().len() && r@[k].1 <= self.text().len(),
        {
            let s = self.selections[i];
            let h = position_to_char(&self.rope, s.head);
            let t = position_to_char(&self.rope, s.tail);
            r.push((h, t));
        }
        r
    }
}

} // verus!

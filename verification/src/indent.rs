//! Indenting and de-indenting the lines under the selections.
use vstd::prelude::*;
use crate::document::{
    edit, edit_ok, spec_position_to_char, valid_position, DocState, Document,
};
use crate::file_info::Indentation;
use crate::history::{Action, ActionView};
use crate::motion::leading_whitespace;
use crate::rope_utils::{push_char, spaces};
use crate::selection::{lemma_selection_bounds, Selection};
use crate::history::copy_selections;
use crate::text::{line_count, line_start, line_text, rope_line_to_char, rope_text};

verus! {

/// The lines from the start to the end of each selection, selection after
/// selection.
pub open spec fn covered_lines(sels: Seq<Selection>) -> Seq<usize>
    decreases sels.len(),
{
    if sels.len() == 0 {
        Seq::empty()
    } else {
        let s = sels.last();
        let a = s.spec_start().line;
        let b = s.spec_end().line;
        covered_lines(sels.drop_last()) + Seq::new(
            (b - a + 1) as nat,
            |i: int| (a + i) as usize,
        )
    }
}

/// The text that one indentation level inserts at a line start: a tab, or
/// as many spaces as the width.
pub open spec fn level_text(ind: Indentation) -> Seq<char> {
    match ind {
        Indentation::Tab(_) => seq!['\t'],
        Indentation::Space(x) => spaces(x as int),
    }
}

/// The text inserted at a cursor: a tab, or the spaces up to the next
/// multiple of the width.
pub open spec fn cursor_text(ind: Indentation, column: usize) -> Seq<char> {
    match ind {
        Indentation::Tab(_) => seq!['\t'],
        Indentation::Space(x) => spaces(x - (column % x)),
    }
}

/// `txt` inserted at the start of each of the lines `lines[k..]`, one after
/// the other.
pub open spec fn indent_lines_from(st: DocState, lines: Seq<usize>, k: int, txt: Seq<char>) -> DocState
    decreases lines.len() - k,
{
    if k >= lines.len() || k < 0 {
        st
    } else {
        let i = line_start(st.text, lines[k] as int);
        indent_lines_from(edit(st, ActionView::Text(txt), i, i), lines, k + 1, txt)
    }
}

/// Each of those insertions runs.
pub open spec fn indent_lines_ok(st: DocState, lines: Seq<usize>, k: int, txt: Seq<char>) -> bool
    decreases lines.len() - k,
{
    if k >= lines.len() || k < 0 {
        true
    } else {
        let i = line_start(st.text, lines[k] as int);
        &&& lines[k] <= line_count(st.text)
        &&& edit_ok(st, ActionView::Text(txt), i, i)
        &&& indent_lines_ok(edit(st, ActionView::Text(txt), i, i), lines, k + 1, txt)
    }
}

/// The text for each cursor of `sels[k..]` inserted at the place of that
/// cursor, one after the other.
pub open spec fn indent_cursors_from(st: DocState, sels: Seq<Selection>, k: int, ind: Indentation) -> DocState
    decreases sels.len() - k,
{
    if k >= sels.len() || k < 0 {
        st
    } else {
        let i = spec_position_to_char(st.text, sels[k].head);
        indent_cursors_from(
            edit(st, ActionView::Text(cursor_text(ind, sels[k].head.column)), i, i),
            sels,
            k + 1,
            ind,
        )
    }
}

/// Each of those insertions runs.
pub open spec fn indent_cursors_ok(st: DocState, sels: Seq<Selection>, k: int, ind: Indentation) -> bool
    decreases sels.len() - k,
{
    if k >= sels.len() || k < 0 {
        true
    } else {
        let i = spec_position_to_char(st.text, sels[k].head);
        let txt = cursor_text(ind, sels[k].head.column);
        &&& valid_position(st.text, sels[k].head)
        &&& (ind matches Indentation::Space(x) ==> x > 0)
        &&& edit_ok(st, ActionView::Text(txt), i, i)
        &&& indent_cursors_ok(edit(st, ActionView::Text(txt), i, i), sels, k + 1, ind)
    }
}

/// What `indent(always)` does to the state `st` with indentation `ind`:
/// a level at the start of every line under the selections when `always`
/// or when the main selection spans lines, else the text for each cursor
/// at that cursor.
pub open spec fn indented(st: DocState, ind: Indentation, always: bool) -> DocState {
    let main = st.sels[0];
    if always || main.head.line != main.tail.line {
        indent_lines_from(st, covered_lines(st.sels), 0, level_text(ind))
    } else {
        indent_cursors_from(st, st.sels, 0, ind)
    }
}

pub open spec fn indent_ok(st: DocState, ind: Indentation, always: bool) -> bool {
    let main = st.sels[0];
    &&& st.sels.len() >= 1
    &&& if always || main.head.line != main.tail.line {
        indent_lines_ok(st, covered_lines(st.sels), 0, level_text(ind))
    } else {
        indent_cursors_ok(st, st.sels, 0, ind)
    }
}

/// The range that de-indenting line `l` of `t` removes: one char (for tab
/// indentation), or the leading whitespace up to the width.
pub open spec fn dedent_range(t: Seq<char>, l: int, ind: Indentation) -> (int, int) {
    let i = line_start(t, l);
    match ind {
        Indentation::Tab(_) => (i, i + 1),
        Indentation::Space(x) => {
            let b = leading_whitespace(line_text(t, l));
            (i, i + if b < x {
                b as int
            } else {
                x as int
            })
        },
    }
}

/// The lines `lines[k..]` de-indented one after the other.
pub open spec fn dedent_lines_from(st: DocState, lines: Seq<usize>, k: int, ind: Indentation) -> DocState
    decreases lines.len() - k,
{
    if k >= lines.len() || k < 0 {
        st
    } else {
        let r = dedent_range(st.text, lines[k] as int, ind);
        dedent_lines_from(edit(st, ActionView::Text(Seq::empty()), r.0, r.1), lines, k + 1, ind)
    }
}

/// Each of those removals runs.
pub open spec fn dedent_lines_ok(st: DocState, lines: Seq<usize>, k: int, ind: Indentation) -> bool
    decreases lines.len() - k,
{
    if k >= lines.len() || k < 0 {
        true
    } else {
        let r = dedent_range(st.text, lines[k] as int, ind);
        &&& lines[k] < line_count(st.text)
        &&& edit_ok(st, ActionView::Text(Seq::empty()), r.0, r.1)
        &&& dedent_lines_ok(edit(st, ActionView::Text(Seq::empty()), r.0, r.1), lines, k + 1, ind)
    }
}

fn covered_lines_exec(sels: &Vec<Selection>) -> (r: Vec<usize>)
    ensures
        r@ == covered_lines(sels@),
{
    let mut r: Vec<usize> = Vec::new();
    for i in 0..sels.len()
        invariant
            r@ == covered_lines(sels@.take(i as int)),
    {
        let s = sels[i];
        proof {
            lemma_selection_bounds(s);
            assert(sels@.take(i + 1).drop_last() =~= sels@.take(i as int));
        }
        let a = s.start().line;
        let b = s.end().line;
        let ghost before = r@;
        let mut l = a;
        loop
            invariant_except_break
                a <= l <= b,
                r@ =~= before + Seq::new((l - a) as nat, |j: int| (a + j) as usize),
            ensures
                r@ =~= before + Seq::new((b - a + 1) as nat, |j: int| (a + j) as usize),
            decreases b - l,
        {
            r.push(l);
            if l == b {
                break;
            }
            l = l + 1;
        }
        assert(r@ =~= covered_lines(sels@.take(i + 1)));
    }
    assert(sels@.take(sels@.len() as int) =~= sels@);
    r
}

fn level_string(ind: Indentation) -> (r: String)
    ensures
        r@ == level_text(ind),
{
    let mut s = String::new();
    match ind {
        Indentation::Tab(_) => {
            push_char(&mut s, '\t');
            assert(s@ =~= seq!['\t']);
        },
        Indentation::Space(x) => {
            let mut k: usize = 0;
            while k < x
                invariant
                    k <= x,
                    s@ =~= spaces(k as int),
                decreases x - k,
            {
                push_char(&mut s, ' ');
                k += 1;
            }
        },
    }
    s
}

fn spaces_string(n: usize) -> (r: String)
    ensures
        r@ == spaces(n as int),
{
    let mut s = String::new();
    let mut k: usize = 0;
    while k < n
        invariant
            k <= n,
            s@ =~= spaces(k as int),
        decreases n - k,
    {
        push_char(&mut s, ' ');
        k += 1;
    }
    s
}

impl Document {
    /// Indents: a level at the start of every line under the selections
    /// when `always` or when the main selection spans lines; otherwise, at
    /// each cursor, a tab or the spaces up to the next multiple of the
    /// width.
    pub fn indent(&mut self, always: bool)
        requires
            old(self).wf(),
            indent_ok(old(self).state(), old(self).file_info.indentation, always),
        ensures
            final(self).wf(),
            final(self).state() == indented(old(self).state(), old(self).file_info.indentation, always),
            final(self).id == old(self).id,
            final(self).file_name == old(self).file_name,
            final(self).file_info == old(self).file_info,
    {
        let ghost st0 = self.state();
        let snapshot = copy_selections(&self.selections);
        let main = snapshot[0];
        let ind = self.file_info.indentation;
        if always || main.head.line != main.tail.line {
            let lines = covered_lines_exec(&snapshot);
            let txt = level_string(ind);
            for k in 0..lines.len()
                invariant
                    self.wf(),
                    self.file_info.indentation == ind,
                    lines@ == covered_lines(st0.sels),
                    txt@ == level_text(ind),
                    indent_lines_ok(self.state(), lines@, k as int, txt@),
                    indent_lines_from(self.state(), lines@, k as int, txt@) == indent_lines_from(
                        st0,
                        lines@,
                        0,
                        txt@,
                    ),
                    self.id == old(self).id,
                    self.file_name == old(self).file_name,
                    self.file_info == old(self).file_info,
            {
                let i = rope_line_to_char(&self.rope, lines[k]);
                self.insert_at(Action::Text(txt.clone()), i, i);
            }
        } else {
            for k in 0..snapshot.len()
                invariant
                    self.wf(),
                    self.file_info.indentation == ind,
                    snapshot@ == st0.sels,
                    indent_cursors_ok(self.state(), snapshot@, k as int, ind),
                    indent_cursors_from(self.state(), snapshot@, k as int, ind) == indent_cursors_from(
                        st0,
                        snapshot@,
                        0,
                        ind,
                    ),
                    self.id == old(self).id,
                    self.file_name == old(self).file_name,
                    self.file_info == old(self).file_info,
            {
                let s = snapshot[k];
                let i = self.position_to_char(s.head);
                let txt = match ind {
                    Indentation::Tab(_) => level_string(ind),
                    Indentation::Space(x) => spaces_string(x - (s.head.column % x)),
                };
                self.insert_at(Action::Text(txt), i, i);
            }
        }
    }

    /// De-indents every line under the selections: removes one char for
    /// tab indentation, or the leading whitespace up to the width.
    pub fn deindent(&mut self)
        requires
            old(self).wf(),
            dedent_lines_ok(
                old(self).state(),
                covered_lines(old(self).selections@),
                0,
                old(self).file_info.indentation,
            ),
        ensures
            final(self).wf(),
            final(self).state() == dedent_lines_from(
                old(self).state(),
                covered_lines(old(self).selections@),
                0,
                old(self).file_info.indentation,
            ),
            final(self).id == old(self).id,
            final(self).file_name == old(self).file_name,
            final(self).file_info == old(self).file_info,
    {
        let ghost st0 = self.state();
        let lines = covered_lines_exec(&self.selections);
        let ind = self.file_info.indentation;
        for k in 0..lines.len()
            invariant
                self.wf(),
                self.file_info.indentation == ind,
                lines@ == covered_lines(st0.sels),
                dedent_lines_ok(self.state(), lines@, k as int, ind),
                dedent_lines_from(self.state(), lines@, k as int, ind) == dedent_lines_from(
                    st0,
                    lines@,
                    0,
                    ind,
                ),
                self.id == old(self).id,
                self.file_name == old(self).file_name,
                self.file_info == old(self).file_info,
        {
            let l = lines[k];
            let _len = crate::text::rope_len_chars(&self.rope);
            let i = rope_line_to_char(&self.rope, l);
            let end = match ind {
                Indentation::Tab(_) => i + 1,
                Indentation::Space(x) => {
                    let b = self.get_line_start_boundary(l);
                    i + if b < x {
                        b
                    } else {
                        x
                    }
                },
            };
            self.insert_at(Action::Text(String::new()), i, end);
        }
    }
}

} // verus!

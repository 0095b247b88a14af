//! How a document's lines are shown: tabs expanded to tab stops, visible
//! columns and bytes, and the per-line areas of a selection.
use vstd::prelude::*;
use ropey::Rope;
use crate::document::{line_len_grapheme, rope_line, Document};
use crate::motion::spec_line_len_grapheme;
use crate::rope_utils::{
    byte_to_grapheme, char_at_offset, char_index_of, char_of_byte, char_to_grapheme, chars_of,
    expand_line, expand_tabs, grapheme_start, grapheme_to_byte, is_char_offset, len_utf8,
    lemma_utf8_width_prefix_bound, lemma_visible_width_prefix, lemma_width_at_least_len,
    next_grapheme_boundary, spec_char_to_grapheme, utf8_width, visible_col_of_bytes, visible_width,
};
use crate::selection::{lemma_selection_bounds, Selection, SelectionAera};
use crate::text::{line_count, line_text, rope_text};

verus! {

/// The text of a line as shown: tabs expanded to the next multiple of
/// `tab_len` when the line holds a tab, the line itself otherwise.
pub open spec fn shown_line(s: Seq<char>, tab_len: nat) -> Seq<char> {
    if s.contains('\t') {
        expand_tabs(s, tab_len)
    } else {
        s
    }
}

/// Whether the chars of a line hold a tab.
fn line_has_tab(c: &Vec<char>) -> (r: bool)
    ensures
        r == c@.contains('\t'),
{
    for i in 0..c.len()
        invariant
            forall|k: int| 0 <= k < i ==> c@[k] != '\t',
    {
        if c[i] == '\t' {
            assert(c@[i as int] == '\t');
            return true;
        }
    }
    false
}

/// Line `line_idx` of `rope` as shown, tabs expanded to the next multiple
/// of `indent_len`.
pub fn get_line_info(rope: &Rope, line_idx: usize, indent_len: usize) -> (r: String)
    requires
        line_idx < line_count(rope_text(*rope)),
        line_text(rope_text(*rope), line_idx as int).contains('\t') ==> indent_len > 0,
        visible_width(line_text(rope_text(*rope), line_idx as int), indent_len as nat) <= usize::MAX,
    ensures
        r@ == shown_line(line_text(rope_text(*rope), line_idx as int), indent_len as nat),
{
    let line = rope_line(rope, line_idx);
    let c = chars_of(line.as_str());
    if line_has_tab(&c) {
        expand_line(&c, indent_len)
    } else {
        line
    }
}

/// The visible column before each char of line `line_idx` of `rope`, and
/// after its last one: tabs advance to the next multiple of `indent_len`,
/// any other char by one column.
pub fn tab2space_char_idx(rope: &Rope, line_idx: usize, indent_len: usize) -> (r: Vec<usize>)
    requires
        line_idx < line_count(rope_text(*rope)),
        line_text(rope_text(*rope), line_idx as int).contains('\t') ==> indent_len > 0,
        visible_width(line_text(rope_text(*rope), line_idx as int), indent_len as nat) <= usize::MAX,
    ensures
        ({
            let s = line_text(rope_text(*rope), line_idx as int);
            &&& r@.len() == s.len() + 1
            &&& forall|k: int| 0 <= k <= s.len() ==> r@[k] == visible_width(#[trigger] s.take(k), indent_len as nat)
        }),
{
    let line = rope_line(rope, line_idx);
    let c = chars_of(line.as_str());
    let ghost s = c@;
    let mut v: Vec<usize> = Vec::new();
    let mut offset: usize = 0;
    v.push(0);
    proof {
        assert(s.take(0) =~= Seq::<char>::empty());
    }
    let mut k: usize = 0;
    while k < c.len()
        invariant
            s == c@,
            k <= s.len(),
            s.contains('\t') ==> indent_len > 0,
            visible_width(s, indent_len as nat) <= usize::MAX,
            offset == visible_width(s.take(k as int), indent_len as nat),
            v@.len() == k + 1,
            forall|j: int| 0 <= j <= k ==> v@[j] == visible_width(#[trigger] s.take(j), indent_len as nat),
        decreases s.len() - k,
    {
        proof {
            assert(s.take(k + 1).drop_last() =~= s.take(k as int));
            assert(s.take(k + 1).last() == s[k as int]);
            lemma_visible_width_prefix(s, indent_len as nat, k + 1);
        }
        if c[k] == '\t' {
            proof {
                assert(s.contains('\t')) by {
                    assert(s[k as int] == '\t');
                }
            }
            offset = offset + (indent_len - offset % indent_len);
        } else {
            offset = offset + 1;
        }
        v.push(offset);
        k = k + 1;
    }
    v
}

/// The visible column after the first `k` graphemes of `s` (fewer when `s`
/// has fewer): a grapheme that starts with a tab advances to the next
/// multiple of `tab_len`, any other by one.
pub open spec fn vcol_after(s: Seq<char>, tab_len: nat, k: nat) -> nat
    decreases k,
{
    if k == 0 {
        0
    } else {
        let p = vcol_after(s, tab_len, (k - 1) as nat);
        let st = grapheme_start(s, (k - 1) as nat);
        if st >= s.len() {
            p
        } else if s[st] == '\t' {
            (p + tab_len - p % tab_len) as nat
        } else {
            p + 1
        }
    }
}

/// The walk over the graphemes of `s` stops after `k` of them: the visible
/// column `target` is reached, or the line is.
pub open spec fn walk_stops(s: Seq<char>, tab_len: nat, target: nat, k: nat) -> bool {
    vcol_after(s, tab_len, k) >= target || grapheme_start(s, k) >= s.len()
}

/// The number of graphemes that the walk to the visible column `target`
/// crosses: the first stop.
pub open spec fn walk_length(s: Seq<char>, tab_len: nat, target: nat) -> nat {
    choose|k: nat| walk_stops(s, tab_len, target, k) && forall|j: nat| j < k ==> !#[trigger] walk_stops(s, tab_len, target, j)
}

/// The walk over the graphemes of `s` towards byte offset `b` stops after
/// `k` of them: the next grapheme starts at or after `b`, or the line ends.
pub open spec fn byte_walk_stops(s: Seq<char>, b: nat, k: nat) -> bool {
    utf8_width(s.take(grapheme_start(s, k))) >= b || grapheme_start(s, k) >= s.len()
}

/// The number of graphemes of `s` that start before byte offset `b`.
pub open spec fn graphemes_before_byte(s: Seq<char>, b: nat) -> nat {
    choose|k: nat| byte_walk_stops(s, b, k) && forall|j: nat| j < k ==> !#[trigger] byte_walk_stops(s, b, j)
}

proof fn lemma_byte_walk(s: Seq<char>, b: nat, k: nat)
    requires
        byte_walk_stops(s, b, k),
        forall|j: nat| j < k ==> !#[trigger] byte_walk_stops(s, b, j),
    ensures
        graphemes_before_byte(s, b) == k,
{
    let w = graphemes_before_byte(s, b);
    assert(byte_walk_stops(s, b, w) && forall|j: nat| j < w ==> !#[trigger] byte_walk_stops(s, b, j));
    if w < k {
        assert(!byte_walk_stops(s, b, w));
    } else if k < w {
        assert(!byte_walk_stops(s, b, k));
    }
}

impl Document {
    /// Line `line_idx` as shown: tabs expanded to the next multiple of the
    /// indentation width when the line holds a tab.
    pub fn get_visible_line(&self, line_idx: usize) -> (r: String)
        requires
            line_idx < line_count(self.text()),
            line_text(self.text(), line_idx as int).contains('\t') ==> self.file_info.indentation.spec_len() > 0,
            visible_width(line_text(self.text(), line_idx as int), self.file_info.indentation.spec_len())
                <= usize::MAX,
        ensures
            r@ == shown_line(line_text(self.text(), line_idx as int), self.file_info.indentation.spec_len()),
    {
        get_line_info(&self.rope, line_idx, self.file_info.indentation.len())
    }

    /// The visible column of the byte offset `byte_idx` of line `line_idx`:
    /// the graphemes that start before it are walked, a tab advancing to the
    /// next multiple of the indentation width and any other grapheme by one
    /// (the whole line when the offset is past its end).
    pub fn byte_to_visible_col(&self, line_idx: usize, byte_idx: usize) -> (r: usize)
        requires
            line_idx < line_count(self.text()),
            line_text(self.text(), line_idx as int).contains('\t') ==> self.file_info.indentation.spec_len() > 0,
            utf8_width(line_text(self.text(), line_idx as int)) <= usize::MAX,
            line_text(self.text(), line_idx as int).len() * (self.file_info.indentation.spec_len() + 1)
                <= usize::MAX,
        ensures
            ({
                let s = line_text(self.text(), line_idx as int);
                r == vcol_after(s, self.file_info.indentation.spec_len(), graphemes_before_byte(s, byte_idx as nat))
            }),
    {
        let ghost t = self.text();
        let line = rope_line(&self.rope, line_idx);
        let c = chars_of(line.as_str());
        let ghost s = c@;
        let n = self.file_info.indentation.len();
        let mut idx: usize = 0;
        let mut byte: usize = 0;
        let mut vcol: usize = 0;
        let ghost mut k: nat = 0;
        proof {
            lemma_utf8_width_prefix_bound(s, 0);
            assert(s.take(0) =~= Seq::<char>::empty());
        }
        loop
            invariant
                t == self.text(),
                s == c@,
                s == line@,
                s == line_text(t, line_idx as int),
                n == self.file_info.indentation.spec_len(),
                s.contains('\t') ==> n > 0,
                utf8_width(s) <= usize::MAX,
                s.len() * (n + 1) <= usize::MAX,
                idx == grapheme_start(s, k),
                idx <= s.len(),
                k <= idx,
                vcol <= k * (n + 1),
                byte == utf8_width(s.take(idx as int)),
                vcol == vcol_after(s, n as nat, k),
                forall|j: nat| j < k ==> !#[trigger] byte_walk_stops(s, byte_idx as nat, j),
            decreases s.len() - idx,
        {
            if byte >= byte_idx {
                proof {
                    lemma_byte_walk(s, byte_idx as nat, k);
                }
                return vcol;
            }
            let next = next_grapheme_boundary(line.as_str(), idx);
            if next == idx {
                proof {
                    lemma_byte_walk(s, byte_idx as nat, k);
                }
                return vcol;
            }
            proof {
                let kk = k;
                let ln = s.len();
                assert((kk + 1) * (n + 1) <= ln * (n + 1)) by (nonlinear_arith)
                    requires
                        kk + 1 <= ln,
                ;
                assert((kk + 1) * (n + 1) == kk * (n + 1) + n + 1) by (nonlinear_arith);
            }
            if c[idx] == '\t' {
                proof {
                    assert(s[idx as int] == '\t');
                }
                vcol = vcol + (n - vcol % n);
            } else {
                vcol = vcol + 1;
            }
            let ghost old_idx = idx;
            while idx < next
                invariant
                    s == c@,
                    next <= s.len(),
                    old_idx <= idx <= next,
                    utf8_width(s) <= usize::MAX,
                    byte == utf8_width(s.take(idx as int)),
                decreases next - idx,
            {
                proof {
                    assert(s.take(idx + 1).drop_last() =~= s.take(idx as int));
                    lemma_utf8_width_prefix_bound(s, idx + 1);
                }
                byte = byte + len_utf8(c[idx]);
                idx = idx + 1;
            }
            proof {
                assert(!byte_walk_stops(s, byte_idx as nat, k));
                k = k + 1;
            }
        }
    }

    /// The byte index in line `line_idx` where the visible column `vcol_idx`
    /// is reached, walking grapheme by grapheme with tabs advancing to the
    /// next multiple of the indentation width; the end of the line when it
    /// comes first.
    pub fn visible_col_to_byte(&self, line_idx: usize, vcol_idx: usize) -> (r: usize)
        requires
            line_idx < line_count(self.text()),
            line_text(self.text(), line_idx as int).contains('\t') ==> self.file_info.indentation.spec_len() > 0,
            vcol_idx + self.file_info.indentation.spec_len() <= usize::MAX,
            utf8_width(line_text(self.text(), line_idx as int)) <= usize::MAX,
        ensures
            ({
                let s = line_text(self.text(), line_idx as int);
                let n = self.file_info.indentation.spec_len();
                r == utf8_width(s.take(grapheme_start(s, walk_length(s, n, vcol_idx as nat))))
            }),
    {
        let ghost t = self.text();
        let line = rope_line(&self.rope, line_idx);
        let c = chars_of(line.as_str());
        let ghost s = c@;
        let n = self.file_info.indentation.len();
        let mut idx: usize = 0;
        let mut byte: usize = 0;
        let mut vcol: usize = 0;
        let ghost mut k: nat = 0;
        proof {
            lemma_utf8_width_prefix_bound(s, 0);
        }
        loop
            invariant
                t == self.text(),
                s == c@,
                s == line@,
                s == line_text(t, line_idx as int),
                n == self.file_info.indentation.spec_len(),
                s.contains('\t') ==> n > 0,
                vcol_idx + n <= usize::MAX,
                utf8_width(s) <= usize::MAX,
                idx == grapheme_start(s, k),
                idx <= s.len(),
                byte == utf8_width(s.take(idx as int)),
                vcol == vcol_after(s, n as nat, k),
                vcol <= vcol_idx + n,
                forall|j: nat| j < k ==> !#[trigger] walk_stops(s, n as nat, vcol_idx as nat, j),
            decreases s.len() - idx, (if vcol < vcol_idx { 1int } else { 0int }),
        {
            if vcol >= vcol_idx {
                proof {
                    lemma_walk_length(s, n as nat, vcol_idx as nat, k);
                }
                return byte;
            }
            let next = next_grapheme_boundary(line.as_str(), idx);
            if next == idx {
                proof {
                    lemma_walk_length(s, n as nat, vcol_idx as nat, k);
                }
                return byte;
            }
            if c[idx] == '\t' {
                proof {
                    assert(s[idx as int] == '\t');
                }
                vcol = vcol + (n - vcol % n);
            } else {
                vcol = vcol + 1;
            }
            let ghost old_idx = idx;
            while idx < next
                invariant
                    s == c@,
                    next <= s.len(),
                    old_idx <= idx <= next,
                    utf8_width(s) <= usize::MAX,
                    byte == utf8_width(s.take(idx as int)),
                decreases next - idx,
            {
                proof {
                    assert(s.take(idx + 1).drop_last() =~= s.take(idx as int));
                    lemma_utf8_width_prefix_bound(s, idx + 1);
                }
                byte = byte + len_utf8(c[idx]);
                idx = idx + 1;
            }
            proof {
                k = k + 1;
            }
        }
    }
}

proof fn lemma_walk_length(s: Seq<char>, n: nat, target: nat, k: nat)
    requires
        walk_stops(s, n, target, k),
        forall|j: nat| j < k ==> !#[trigger] walk_stops(s, n, target, j),
    ensures
        walk_length(s, n, target) == k,
{
    let w = walk_length(s, n, target);
    assert(walk_stops(s, n, target, w) && forall|j: nat| j < w ==> !#[trigger] walk_stops(s, n, target, j));
    if w < k {
        assert(!walk_stops(s, n, target, w));
    } else if k < w {
        assert(!walk_stops(s, n, target, k));
    }
}

/// The areas of a selection on the lines of `t`: from its start to its
/// end on one line; from the start to the line's end, whole middle lines,
/// and the last line up to the end, when it spans several.
pub open spec fn spec_areas(t: Seq<char>, s: Selection) -> Seq<SelectionAera> {
    let a = s.spec_start();
    let b = s.spec_end();
    if b.line == a.line {
        seq![SelectionAera { col_start: a.column, col_end: b.column, line: a.line, include_eol: false, id: s }]
    } else {
        Seq::new(
            (b.line - a.line + 1) as nat,
            |i: int|
                if i == 0 {
                    SelectionAera {
                        col_start: a.column,
                        col_end: spec_line_len_grapheme(t, a.line as int) as usize,
                        line: a.line,
                        include_eol: true,
                        id: s,
                    }
                } else if i == b.line - a.line {
                    SelectionAera { col_start: 0, col_end: b.column, line: b.line, include_eol: false, id: s }
                } else {
                    SelectionAera {
                        col_start: 0,
                        col_end: spec_line_len_grapheme(t, a.line + i) as usize,
                        line: (a.line + i) as usize,
                        include_eol: true,
                        id: s,
                    }
                },
        )
    }
}

impl Selection {
    /// The per-line areas of the selection in the text of `rope`.
    pub fn areas(&self, rope: &Rope) -> (r: Vec<SelectionAera>)
        requires
            self.spec_end().line < line_count(rope_text(*rope)),
        ensures
            r@ == spec_areas(rope_text(*rope), *self),
    {
        let ghost t = rope_text(*rope);
        let start = self.start();
        let end = self.end();
        proof {
            lemma_selection_bounds(*self);
        }
        let mut v: Vec<SelectionAera> = Vec::new();
        if end.line == start.line {
            v.push(SelectionAera::new(start.column, end.column, start.line, false, *self));
            assert(v@ =~= spec_areas(t, *self));
            return v;
        }
        v.push(
            SelectionAera::new(
                start.column,
                line_len_grapheme(rope, start.line),
                start.line,
                true,
                *self,
            ),
        );
        let mut l = start.line + 1;
        while l < end.line
            invariant
                start == self.spec_start(),
                end == self.spec_end(),
                start.line < l <= end.line,
                end.line < line_count(t),
                t == rope_text(*rope),
                v@ =~= spec_areas(t, *self).take(l - start.line),
            decreases end.line - l,
        {
            v.push(SelectionAera::new(0, line_len_grapheme(rope, l), l, true, *self));
            l = l + 1;
        }
        v.push(SelectionAera::new(0, end.column, end.line, false, *self));
        assert(v@ =~= spec_areas(t, *self));
        v
    }
}

// ---------------------------------------------------------------------
// Columns, visible columns and bytes

/// The number of graphemes of `s`.
pub open spec fn grapheme_count(s: Seq<char>) -> nat {
    spec_char_to_grapheme(s, s.len() as int)
}

/// The char that the column conversions read for grapheme `k` of `s`: the
/// one at the byte offset equal to the grapheme's char index (on ASCII text
/// the grapheme's first char).
pub open spec fn char_read_at(s: Seq<char>, k: nat) -> char {
    s[char_at_offset(s, grapheme_start(s, k))]
}

/// The visible column after the first `k` graphemes of `s` as the column
/// conversions count it: a read tab advances to the next multiple of
/// `tab_len`, anything else by one.
pub open spec fn col_vcol(s: Seq<char>, tab_len: nat, k: nat) -> nat
    decreases k,
{
    if k == 0 {
        0
    } else {
        let p = col_vcol(s, tab_len, (k - 1) as nat);
        if char_read_at(s, (k - 1) as nat) == '\t' {
            (p + tab_len - p % tab_len) as nat
        } else {
            p + 1
        }
    }
}

/// Grapheme `k` of `s` can be read: its start and its end, taken as byte
/// offsets, fall between chars, and a tab read there has a tab width.
pub open spec fn grapheme_readable(s: Seq<char>, tab_len: nat, k: nat) -> bool {
    &&& is_char_offset(s, grapheme_start(s, k))
    &&& is_char_offset(s, grapheme_start(s, k + 1))
    &&& char_read_at(s, k) == '\t' ==> tab_len > 0
}

/// The number of graphemes that `col_to_vcol` reads for column `col`.
pub open spec fn cols_read(s: Seq<char>, col: nat) -> nat {
    if col < grapheme_count(s) {
        col
    } else {
        grapheme_count(s)
    }
}

/// The visible column after grapheme `j` of `s` is at most `target`.
pub open spec fn col_stays(s: Seq<char>, tab_len: nat, target: nat, j: nat) -> bool {
    col_vcol(s, tab_len, j + 1) <= target
}

/// `vcol_to_col` reads grapheme `k` of `s`: the visible column stayed at
/// most `target` after each grapheme before it.
pub open spec fn col_walk_reaches(s: Seq<char>, tab_len: nat, target: nat, k: nat) -> bool {
    forall|j: nat| j < k ==> #[trigger] col_stays(s, tab_len, target, j)
}

/// Grapheme `k` can be read by `vcol_to_col`, and the visible column after
/// it fits in a `usize`.
pub open spec fn vcol_step_ok(s: Seq<char>, tab_len: nat, k: nat) -> bool {
    grapheme_readable(s, tab_len, k) && col_vcol(s, tab_len, k + 1) <= usize::MAX
}

proof fn lemma_col_vcol_mono(s: Seq<char>, n: nat, j: nat, m: nat)
    requires
        j <= m,
        forall|k: nat| k < m ==> #[trigger] grapheme_readable(s, n, k),
    ensures
        col_vcol(s, n, j) <= col_vcol(s, n, m),
    decreases m - j,
{
    if j < m {
        lemma_col_vcol_mono(s, n, j + 1, m);
        assert(grapheme_readable(s, n, j));
    }
}

/// The visible column grows with each grapheme read.
proof fn lemma_col_vcol_step(s: Seq<char>, n: nat, k: nat)
    requires
        grapheme_readable(s, n, k),
    ensures
        col_vcol(s, n, k) < col_vcol(s, n, k + 1),
{
    let p = col_vcol(s, n, k);
    if char_read_at(s, k) == '\t' {
        assert(p % n < n);
    }
}

/// Going to the visible column of a column and back gives the column: on a
/// line whose graphemes up to column `col` can be read (the line's end
/// included), `vcol_to_col` of the visible column that `col_to_vcol` gives
/// for `col` is `col` again.
pub proof fn lemma_vcol_to_col_of_col_to_vcol(s: Seq<char>, n: nat, col: nat)
    requires
        col <= grapheme_count(s),
        forall|k: nat| k <= col && k < grapheme_count(s) ==> #[trigger] grapheme_readable(s, n, k),
    ensures
        cols_read(s, col) == col,
        col_walk_reaches(s, n, col_vcol(s, n, col), col),
        col < grapheme_count(s) ==> !col_stays(s, n, col_vcol(s, n, col), col),
{
    let v = col_vcol(s, n, col);
    assert forall|j: nat| j < col implies #[trigger] col_stays(s, n, v, j) by {
        lemma_col_vcol_mono(s, n, j + 1, col);
    }
    if col < grapheme_count(s) {
        lemma_col_vcol_step(s, n, col);
    }
}

/// The char index at byte offset `b`, when `b` is a char offset before the
/// (char) length of `s`, is that of a char of `s`.
proof fn lemma_offset_char_in_range(s: Seq<char>, b: int)
    requires
        is_char_offset(s, b),
        b < s.len(),
    ensures
        0 <= char_at_offset(s, b) < s.len(),
        utf8_width(s.take(char_at_offset(s, b))) == b,
{
    let c = char_at_offset(s, b);
    lemma_width_at_least_len(s.take(c));
}

impl Document {
    /// The char the conversions read for the grapheme that starts at char
    /// index `idx` of the line `c`, the index taken as a byte offset.
    fn read_char_at(c: &Vec<char>, idx: usize) -> (r: char)
        requires
            is_char_offset(c@, idx as int),
            idx < c@.len(),
        ensures
            r == c@[char_at_offset(c@, idx as int)],
    {
        proof {
            lemma_offset_char_in_range(c@, idx as int);
        }
        let ci = char_index_of(c, idx);
        c[ci]
    }

    /// The visible column of column `col_idx` (a grapheme index) of line
    /// `line_idx`: the graphemes before it are read, a tab advancing to the
    /// next multiple of the indentation width. Each grapheme is read at the
    /// byte offset equal to its char index.
    pub fn col_to_vcol(&self, line_idx: usize, col_idx: usize) -> (r: usize)
        requires
            line_idx < line_count(self.text()),
            col_idx < usize::MAX,
            ({
                let s = line_text(self.text(), line_idx as int);
                let n = self.file_info.indentation.spec_len();
                &&& forall|k: nat| k < cols_read(s, col_idx as nat) ==> #[trigger] grapheme_readable(s, n, k)
                &&& col_vcol(s, n, cols_read(s, col_idx as nat)) <= usize::MAX
            }),
        ensures
            r == col_vcol(
                line_text(self.text(), line_idx as int),
                self.file_info.indentation.spec_len(),
                cols_read(line_text(self.text(), line_idx as int), col_idx as nat),
            ),
    {
        let line = rope_line(&self.rope, line_idx);
        let c = chars_of(line.as_str());
        let ghost s = c@;
        let n = self.file_info.indentation.len();
        let g = char_to_grapheme(line.as_str(), c.len());
        let m = if col_idx < g {
            col_idx
        } else {
            g
        };
        let mut vcol: usize = 0;
        let mut idx: usize = 0;
        let mut k: usize = 0;
        while k < m
            invariant
                s == c@,
                s == line@,
                s == line_text(self.text(), line_idx as int),
                n == self.file_info.indentation.spec_len(),
                g == grapheme_count(s),
                m == cols_read(s, col_idx as nat),
                m <= g,
                k <= m,
                crate::rope_utils::is_grapheme_of(s, s.len() as int, g as nat),
                idx == grapheme_start(s, k as nat),
                vcol == col_vcol(s, n as nat, k as nat),
                forall|j: nat| j < m ==> #[trigger] grapheme_readable(s, n as nat, j),
                col_vcol(s, n as nat, m as nat) <= usize::MAX,
            decreases m - k,
        {
            assert(grapheme_readable(s, n as nat, k as nat));
            assert(grapheme_start(s, k as nat) < s.len());
            let next = next_grapheme_boundary(line.as_str(), idx);
            let ch = Self::read_char_at(&c, idx);
            proof {
                lemma_col_vcol_mono(s, n as nat, (k + 1) as nat, m as nat);
            }
            if ch == '\t' {
                vcol = vcol + (n - vcol % n);
            } else {
                vcol = vcol + 1;
            }
            idx = next;
            k = k + 1;
        }
        vcol
    }

    /// The column (grapheme index) of line `line_idx` at which the visible
    /// column `vcol_idx` is passed: the first grapheme after which the
    /// visible column counted by `col_to_vcol` exceeds it, the number of
    /// graphemes of the line when none does.
    pub fn vcol_to_col(&self, line_idx: usize, vcol_idx: usize) -> (r: usize)
        requires
            line_idx < line_count(self.text()),
            ({
                let s = line_text(self.text(), line_idx as int);
                let n = self.file_info.indentation.spec_len();
                forall|k: nat|
                    k < grapheme_count(s) && col_walk_reaches(s, n, vcol_idx as nat, k)
                        ==> #[trigger] vcol_step_ok(s, n, k)
            }),
        ensures
            ({
                let s = line_text(self.text(), line_idx as int);
                let n = self.file_info.indentation.spec_len();
                &&& r <= grapheme_count(s)
                &&& col_walk_reaches(s, n, vcol_idx as nat, r as nat)
                &&& r < grapheme_count(s) ==> !col_stays(s, n, vcol_idx as nat, r as nat)
            }),
    {
        let line = rope_line(&self.rope, line_idx);
        let c = chars_of(line.as_str());
        let ghost s = c@;
        let n = self.file_info.indentation.len();
        let g = char_to_grapheme(line.as_str(), c.len());
        let mut vcol: usize = 0;
        let mut idx: usize = 0;
        let mut k: usize = 0;
        while k < g
            invariant
                s == c@,
                s == line@,
                s == line_text(self.text(), line_idx as int),
                n == self.file_info.indentation.spec_len(),
                g == grapheme_count(s),
                k <= g,
                crate::rope_utils::is_grapheme_of(s, s.len() as int, g as nat),
                idx == grapheme_start(s, k as nat),
                vcol == col_vcol(s, n as nat, k as nat),
                col_walk_reaches(s, n as nat, vcol_idx as nat, k as nat),
                forall|j: nat|
                    j < g && col_walk_reaches(s, n as nat, vcol_idx as nat, j)
                        ==> #[trigger] vcol_step_ok(s, n as nat, j),
            decreases g - k,
        {
            assert(vcol_step_ok(s, n as nat, k as nat));
            assert(grapheme_start(s, k as nat) < s.len());
            let next = next_grapheme_boundary(line.as_str(), idx);
            let ch = Self::read_char_at(&c, idx);
            if ch == '\t' {
                vcol = vcol + (n - vcol % n);
            } else {
                vcol = vcol + 1;
            }
            if vcol > vcol_idx {
                return k;
            }
            proof {
                assert(col_stays(s, n as nat, vcol_idx as nat, k as nat));
                assert forall|j: nat| j < k + 1 implies #[trigger] col_stays(s, n as nat, vcol_idx as nat, j) by {
                    if j < k {
                        assert(col_walk_reaches(s, n as nat, vcol_idx as nat, k as nat));
                    }
                }
            }
            idx = next;
            k = k + 1;
        }
        k
    }

    /// The byte offset, in line `line_idx` as shown (tabs expanded), of the
    /// grapheme `vcol_idx` of the shown line.
    pub fn vcol_to_byte(&self, line_idx: usize, vcol_idx: usize) -> (r: usize)
        requires
            line_idx < line_count(self.text()),
            line_text(self.text(), line_idx as int).contains('\t') ==> self.file_info.indentation.spec_len() > 0,
            visible_width(line_text(self.text(), line_idx as int), self.file_info.indentation.spec_len())
                <= usize::MAX,
            vcol_idx <= grapheme_count(
                shown_line(line_text(self.text(), line_idx as int), self.file_info.indentation.spec_len()),
            ),
        ensures
            ({
                let v = shown_line(line_text(self.text(), line_idx as int), self.file_info.indentation.spec_len());
                r == utf8_width(v.take(grapheme_start(v, vcol_idx as nat)))
            }),
    {
        let v = self.get_visible_line(line_idx);
        grapheme_to_byte(v.as_str(), vcol_idx)
    }

    /// The visible column, as a grapheme index of line `line_idx` as shown
    /// (tabs expanded), of the byte offset `byte_idx` of the shown line: the
    /// grapheme index of the char holding it.
    pub fn byte_to_vcol(&self, line_idx: usize, byte_idx: usize) -> (r: usize)
        requires
            line_idx < line_count(self.text()),
            line_text(self.text(), line_idx as int).contains('\t') ==> self.file_info.indentation.spec_len() > 0,
            visible_width(line_text(self.text(), line_idx as int), self.file_info.indentation.spec_len())
                <= usize::MAX,
            byte_idx <= utf8_width(
                shown_line(line_text(self.text(), line_idx as int), self.file_info.indentation.spec_len()),
            ),
        ensures
            ({
                let v = shown_line(line_text(self.text(), line_idx as int), self.file_info.indentation.spec_len());
                r == spec_char_to_grapheme(v, char_of_byte(v, byte_idx as int))
            }),
    {
        let v = self.get_visible_line(line_idx);
        byte_to_grapheme(v.as_str(), byte_idx)
    }

    /// The byte offset, in line `line_idx` as shown, of column `col_idx`:
    /// its visible column by `col_to_vcol`, then that grapheme of the shown
    /// line by `vcol_to_byte`.
    pub fn col_to_byte(&self, line_idx: usize, col_idx: usize) -> (r: usize)
        requires
            line_idx < line_count(self.text()),
            col_idx < usize::MAX,
            ({
                let s = line_text(self.text(), line_idx as int);
                let n = self.file_info.indentation.spec_len();
                &&& forall|k: nat| k < cols_read(s, col_idx as nat) ==> #[trigger] grapheme_readable(s, n, k)
                &&& col_vcol(s, n, cols_read(s, col_idx as nat)) <= grapheme_count(shown_line(s, n))
                &&& col_vcol(s, n, cols_read(s, col_idx as nat)) <= usize::MAX
                &&& s.contains('\t') ==> n > 0
                &&& visible_width(s, n) <= usize::MAX
            }),
        ensures
            ({
                let s = line_text(self.text(), line_idx as int);
                let n = self.file_info.indentation.spec_len();
                let v = shown_line(s, n);
                r == utf8_width(v.take(grapheme_start(v, col_vcol(s, n, cols_read(s, col_idx as nat)))))
            }),
    {
        let vcol_idx = self.col_to_vcol(line_idx, col_idx);
        self.vcol_to_byte(line_idx, vcol_idx)
    }

    /// The column of line `line_idx` of the byte offset `byte_idx` of the
    /// line as shown: its visible column by `byte_to_vcol`, then the column
    /// at which `vcol_to_col` passes it.
    pub fn byte_to_col(&self, line_idx: usize, byte_idx: usize) -> (r: usize)
        requires
            line_idx < line_count(self.text()),
            ({
                let s = line_text(self.text(), line_idx as int);
                let n = self.file_info.indentation.spec_len();
                let v = shown_line(s, n);
                let target = spec_char_to_grapheme(v, char_of_byte(v, byte_idx as int));
                &&& s.contains('\t') ==> n > 0
                &&& visible_width(s, n) <= usize::MAX
                &&& byte_idx <= utf8_width(v)
                &&& forall|k: nat|
                    k < grapheme_count(s) && col_walk_reaches(s, n, target, k) ==> #[trigger] vcol_step_ok(s, n, k)
            }),
        ensures
            ({
                let s = line_text(self.text(), line_idx as int);
                let n = self.file_info.indentation.spec_len();
                let v = shown_line(s, n);
                let target = spec_char_to_grapheme(v, char_of_byte(v, byte_idx as int));
                &&& r <= grapheme_count(s)
                &&& col_walk_reaches(s, n, target, r as nat)
                &&& r < grapheme_count(s) ==> !col_stays(s, n, target, r as nat)
            }),
    {
        let vcol_idx = self.byte_to_vcol(line_idx, byte_idx);
        self.vcol_to_col(line_idx, vcol_idx)
    }
}

} // verus!

//! Cursor motions: moving, paging, going home or to the end of a line, and
//! adding a cursor above or below.
use vstd::prelude::*;
use ropey::Rope;
use crate::document::{
    full_le, is_merge_of, line_len_grapheme, sels_valid, spec_char_to_position, spec_line_len_char,
    spec_position_to_char, valid_position, Document,
};
use crate::rope_utils::{
    char_is_whitespace, chars_of, grapheme_after, grapheme_before, is_whitespace,
    spec_char_to_grapheme, spec_next_word_boundary, spec_prev_word_boundary,
};
use crate::selection::{MoveDirection, Position, Selection};
use crate::text::{line_count, line_text, rope_len_lines, rope_text};

verus! {

/// The number of graphemes of line `l`, its line ending left out.
pub open spec fn spec_line_len_grapheme(t: Seq<char>, l: int) -> nat {
    spec_char_to_grapheme(line_text(t, l), spec_line_len_char(t, l) as int)
}

/// The cursor `p` taken to line `line`, at its visible column or at the end
/// of the line when that is shorter; the visible column is kept.
pub open spec fn vertical_head(t: Seq<char>, p: Position, line: int) -> Position {
    let len = spec_line_len_grapheme(t, line);
    Position {
        line: line as usize,
        column: (if (p.vcol as nat) < len {
            p.vcol as nat
        } else {
            len
        }) as usize,
        vcol: p.vcol,
    }
}

/// The selection `s` with the cursor at `h`, and the anchor kept when
/// `expand`, else at the cursor.
pub open spec fn with_head(s: Selection, h: Position, expand: bool) -> Selection {
    Selection {
        head: h,
        tail: if expand {
            s.tail
        } else {
            h
        },
        is_clone: s.is_clone,
    }
}

/// The cursor `h` moved one step in direction `dir`: a line up or down, or
/// a grapheme left or right.
pub open spec fn moved_head(t: Seq<char>, h: Position, dir: MoveDirection) -> Position {
    match dir {
        MoveDirection::Up => vertical_head(t, h, if h.line == 0 {
            0
        } else {
            h.line - 1
        }),
        MoveDirection::Down => vertical_head(
            t,
            h,
            if h.line + 1 < line_count(t) {
                h.line + 1
            } else {
                line_count(t) - 1
            },
        ),
        MoveDirection::Left => spec_char_to_position(
            t,
            grapheme_before(t, spec_position_to_char(t, h)),
        ),
        MoveDirection::Right => spec_char_to_position(
            t,
            grapheme_after(t, spec_position_to_char(t, h)),
        ),
    }
}

/// The cursor `h` moved to the word boundary before (left) or after
/// (right) it; up and down leave it.
pub open spec fn word_moved_head(t: Seq<char>, h: Position, dir: MoveDirection) -> Position {
    match dir {
        MoveDirection::Left => spec_char_to_position(
            t,
            spec_prev_word_boundary(t, spec_position_to_char(t, h)),
        ),
        MoveDirection::Right => spec_char_to_position(
            t,
            spec_next_word_boundary(t, spec_position_to_char(t, h)),
        ),
        _ => h,
    }
}

/// The cursor `h` moved `amount` lines up (to the first line at most).
pub open spec fn paged_up_head(t: Seq<char>, h: Position, amount: nat) -> Position {
    vertical_head(t, h, if h.line >= amount {
        h.line - amount
    } else {
        0
    })
}

/// The cursor `h` moved `amount` lines down (to the last line at most).
pub open spec fn paged_down_head(t: Seq<char>, h: Position, amount: nat) -> Position {
    vertical_head(
        t,
        h,
        if h.line + amount < line_count(t) {
            h.line + amount
        } else {
            line_count(t) - 1
        },
    )
}

/// The number of whitespace chars that open `s`.
pub open spec fn leading_whitespace(s: Seq<char>) -> nat
    decreases s.len(),
{
    if s.len() == 0 {
        0
    } else if char_is_whitespace(s[0]) {
        1 + leading_whitespace(s.skip(1))
    } else {
        0
    }
}

/// The cursor `h` taken to where the text of its line starts, or to the
/// start of the line when it is there already.
pub open spec fn home_head(t: Seq<char>, h: Position) -> Position {
    let b = leading_whitespace(line_text(t, h.line as int));
    let c: nat = if h.column == b {
        0
    } else {
        b
    };
    Position { line: h.line, column: c as usize, vcol: c as usize }
}

/// The cursor `h` taken to the end of its line.
pub open spec fn end_head(t: Seq<char>, h: Position) -> Position {
    let c = spec_line_len_grapheme(t, h.line as int);
    Position { line: h.line, column: c as usize, vcol: c as usize }
}

/// The order of the derived `Ord` of selections: cursor, then anchor, then
/// whether it is an extra cursor.
pub open spec fn sel_le(a: Selection, b: Selection) -> bool {
    if a.head != b.head {
        full_le(a.head, b.head)
    } else if a.tail != b.tail {
        full_le(a.tail, b.tail)
    } else {
        !a.is_clone || b.is_clone
    }
}

/// `s` is the greatest of `sels`.
pub open spec fn is_greatest(s: Selection, sels: Seq<Selection>) -> bool {
    sels.contains(s) && forall|i: int| 0 <= i < sels.len() ==> sel_le(#[trigger] sels[i], s)
}

/// `s` is the least of `sels`.
pub open spec fn is_least(s: Selection, sels: Seq<Selection>) -> bool {
    sels.contains(s) && forall|i: int| 0 <= i < sels.len() ==> sel_le(s, #[trigger] sels[i])
}

/// The selections after a duplication in direction `dir`: a new cursor
/// on the line below the greatest selection (above the least), at its
/// visible column, added when there is such a line.
pub open spec fn duplicated(t: Seq<char>, sels: Seq<Selection>, dir: MoveDirection) -> Seq<Selection> {
    match dir {
        MoveDirection::Down => {
            let s = choose|s: Selection| is_greatest(s, sels);
            let h = moved_head(t, s.head, MoveDirection::Down);
            if h.line > s.head.line {
                sels.push(Selection { head: h, tail: h, is_clone: true })
            } else {
                sels
            }
        },
        MoveDirection::Up => {
            let s = choose|s: Selection| is_least(s, sels);
            let h = moved_head(t, s.head, MoveDirection::Up);
            if h.line < s.head.line {
                sels.push(Selection { head: h, tail: h, is_clone: true })
            } else {
                sels
            }
        },
        _ => sels,
    }
}

/// The vertical motions of a cursor on an existing line: down goes to the
/// next line and up to the previous one, staying on the last and the first
/// line; a page down or up goes `amount` lines, to the last or the first
/// line at most. Each keeps the visible column, and lands no further into
/// the line than its end.
pub proof fn lemma_vertical_motions(t: Seq<char>, h: Position, amount: nat)
    requires
        h.line < line_count(t),
        line_count(t) <= usize::MAX,
    ensures
        moved_head(t, h, MoveDirection::Down).line == if h.line + 1 < line_count(t) {
            h.line + 1
        } else {
            h.line as int
        },
        moved_head(t, h, MoveDirection::Up).line == if h.line > 0 {
            h.line - 1
        } else {
            0
        },
        paged_down_head(t, h, amount).line == if h.line + amount < line_count(t) {
            h.line + amount
        } else {
            line_count(t) - 1
        },
        paged_up_head(t, h, amount).line == if h.line >= amount {
            h.line - amount
        } else {
            0
        },
        moved_head(t, h, MoveDirection::Down).vcol == h.vcol,
        moved_head(t, h, MoveDirection::Up).vcol == h.vcol,
        paged_down_head(t, h, amount).vcol == h.vcol,
        paged_up_head(t, h, amount).vcol == h.vcol,
        moved_head(t, h, MoveDirection::Down).column <= spec_line_len_grapheme(
            t,
            moved_head(t, h, MoveDirection::Down).line as int,
        ),
        moved_head(t, h, MoveDirection::Up).column <= spec_line_len_grapheme(
            t,
            moved_head(t, h, MoveDirection::Up).line as int,
        ),
{
}

proof fn lemma_sel_le_antisymmetric(a: Selection, b: Selection)
    requires
        sel_le(a, b),
        sel_le(b, a),
    ensures
        a == b,
{
}

fn sel_le_exec(a: Selection, b: Selection) -> (r: bool)
    ensures
        r == sel_le(a, b),
{
    let heads_same = a.head.line == b.head.line && a.head.column == b.head.column && a.head.vcol
        == b.head.vcol;
    if !heads_same {
        return a.head.line < b.head.line || (a.head.line == b.head.line && (a.head.column
            < b.head.column || (a.head.column == b.head.column && a.head.vcol <= b.head.vcol)));
    }
    let tails_same = a.tail.line == b.tail.line && a.tail.column == b.tail.column && a.tail.vcol
        == b.tail.vcol;
    if !tails_same {
        return a.tail.line < b.tail.line || (a.tail.line == b.tail.line && (a.tail.column
            < b.tail.column || (a.tail.column == b.tail.column && a.tail.vcol <= b.tail.vcol)));
    }
    !a.is_clone || b.is_clone
}

impl Document {
    /// Whether every selection end is on an existing line.
    pub fn selections_valid(&self) -> (r: bool)
        ensures
            r == sels_valid(self.text(), self.selections@),
    {
        let n = rope_len_lines(&self.rope);
        for k in 0..self.selections.len()
            invariant
                n == line_count(self.text()),
                forall|j: int|
                    0 <= j < k ==> valid_position(self.text(), (#[trigger] self.selections@[j]).head)
                        && valid_position(self.text(), self.selections@[j].tail),
        {
            if self.selections[k].head.line >= n || self.selections[k].tail.line >= n {
                return false;
            }
        }
        true
    }

    fn vertical(&self, p: Position, line: usize) -> (r: Position)
        requires
            line < line_count(self.text()),
        ensures
            r == vertical_head(self.text(), p, line as int),
    {
        let len = line_len_grapheme(&self.rope, line);
        let c = if p.vcol < len {
            p.vcol
        } else {
            len
        };
        Position { line, column: c, vcol: p.vcol }
    }

    fn moved(&self, h: Position, dir: MoveDirection) -> (r: Position)
        requires
            valid_position(self.text(), h),
        ensures
            r == moved_head(self.text(), h, dir),
    {
        match dir {
            MoveDirection::Up => {
                let line = if h.line == 0 {
                    0
                } else {
                    h.line - 1
                };
                self.vertical(h, line)
            },
            MoveDirection::Down => {
                let n = rope_len_lines(&self.rope);
                let line = if h.line + 1 < n {
                    h.line + 1
                } else {
                    n - 1
                };
                self.vertical(h, line)
            },
            MoveDirection::Left => self.prev_position(h),
            MoveDirection::Right => self.next_position(h),
        }
    }

    /// Moves every cursor one step in direction `dir`, the anchors with them
    /// unless `expand`; up and down keep the visible column. The selections
    /// that then collide are merged.
    pub fn move_selections(&mut self, dir: MoveDirection, expand: bool)
        requires
            old(self).selections@.len() >= 1,
            sels_valid(old(self).text(), old(self).selections@),
        ensures
            is_merge_of(
                final(self).selections@,
                old(self).selections@.map_values(
                    |s: Selection| with_head(s, moved_head(old(self).text(), s.head, dir), expand),
                ),
            ),
            final(self).text() == old(self).text(),
            final(self).history@ == old(self).history@,
            final(self).id == old(self).id,
            final(self).file_name == old(self).file_name,
            final(self).file_info == old(self).file_info,
    {
        let ghost t = self.text();
        let ghost f = |s: Selection| with_head(s, moved_head(t, s.head, dir), expand);
        let mut out: Vec<Selection> = Vec::new();
        for i in 0..self.selections.len()
            invariant
                t == self.text(),
                sels_valid(t, self.selections@),
                f == (|s: Selection| with_head(s, moved_head(t, s.head, dir), expand)),
                out@ =~= self.selections@.take(i as int).map_values(f),
        {
            let s = self.selections[i];
            let h = self.moved(s.head, dir);
            let tail = if expand {
                s.tail
            } else {
                h
            };
            out.push(Selection { head: h, tail, is_clone: s.is_clone });
            proof {
                assert(self.selections@.take(i + 1).map_values(f) =~= self.selections@.take(
                    i as int,
                ).map_values(f).push(f(s)));
            }
        }
        assert(self.selections@.take(self.selections@.len() as int) =~= self.selections@);
        self.selections = out;
        self.merge_selections();
    }

    /// Moves every cursor to the word boundary before (left) or after
    /// (right) it, the anchors with them unless `expand`, and merges the
    /// selections that then collide.
    pub fn move_selections_word(&mut self, dir: MoveDirection, expand: bool)
        requires
            old(self).selections@.len() >= 1,
            sels_valid(old(self).text(), old(self).selections@),
        ensures
            is_merge_of(
                final(self).selections@,
                old(self).selections@.map_values(
                    |s: Selection| with_head(s, word_moved_head(old(self).text(), s.head, dir), expand),
                ),
            ),
            final(self).text() == old(self).text(),
            final(self).history@ == old(self).history@,
            final(self).id == old(self).id,
            final(self).file_name == old(self).file_name,
            final(self).file_info == old(self).file_info,
    {
        let ghost t = self.text();
        let ghost f = |s: Selection| with_head(s, word_moved_head(t, s.head, dir), expand);
        let mut out: Vec<Selection> = Vec::new();
        for i in 0..self.selections.len()
            invariant
                t == self.text(),
                sels_valid(t, self.selections@),
                f == (|s: Selection| with_head(s, word_moved_head(t, s.head, dir), expand)),
                out@ =~= self.selections@.take(i as int).map_values(f),
        {
            let s = self.selections[i];
            let h = match dir {
                MoveDirection::Left => self.prev_word_boundary(s.head),
                MoveDirection::Right => self.next_word_boundary(s.head),
                _ => s.head,
            };
            let tail = if expand {
                s.tail
            } else {
                h
            };
            out.push(Selection { head: h, tail, is_clone: s.is_clone });
            proof {
                assert(self.selections@.take(i + 1).map_values(f) =~= self.selections@.take(
                    i as int,
                ).map_values(f).push(f(s)));
            }
        }
        assert(self.selections@.take(self.selections@.len() as int) =~= self.selections@);
        self.selections = out;
        self.merge_selections();
    }

    /// Moves every cursor `amount` lines up at its visible column, the
    /// anchors with them unless `expand`, and merges the selections that
    /// then collide.
    pub fn page_up(&mut self, amount: usize, expand: bool)
        requires
            old(self).selections@.len() >= 1,
            sels_valid(old(self).text(), old(self).selections@),
        ensures
            is_merge_of(
                final(self).selections@,
                old(self).selections@.map_values(
                    |s: Selection| with_head(s, paged_up_head(old(self).text(), s.head, amount as nat), expand),
                ),
            ),
            final(self).text() == old(self).text(),
            final(self).history@ == old(self).history@,
            final(self).id == old(self).id,
            final(self).file_name == old(self).file_name,
            final(self).file_info == old(self).file_info,
    {
        let ghost t = self.text();
        let ghost f = |s: Selection| with_head(s, paged_up_head(t, s.head, amount as nat), expand);
        let mut out: Vec<Selection> = Vec::new();
        for i in 0..self.selections.len()
            invariant
                t == self.text(),
                sels_valid(t, self.selections@),
                f == (|s: Selection| with_head(s, paged_up_head(t, s.head, amount as nat), expand)),
                out@ =~= self.selections@.take(i as int).map_values(f),
        {
            let s = self.selections[i];
            let line = if s.head.line >= amount {
                s.head.line - amount
            } else {
                0
            };
            let h = self.vertical(s.head, line);
            let tail = if expand {
                s.tail
            } else {
                h
            };
            out.push(Selection { head: h, tail, is_clone: s.is_clone });
            proof {
                assert(self.selections@.take(i + 1).map_values(f) =~= self.selections@.take(
                    i as int,
                ).map_values(f).push(f(s)));
            }
        }
        assert(self.selections@.take(self.selections@.len() as int) =~= self.selections@);
        self.selections = out;
        self.merge_selections();
    }

    /// Moves every cursor `amount` lines down at its visible column, the
    /// anchors with them unless `expand`, and merges the selections that
    /// then collide.
    pub fn page_down(&mut self, amount: usize, expand: bool)
        requires
            old(self).selections@.len() >= 1,
            sels_valid(old(self).text(), old(self).selections@),
            forall|i: int|
                0 <= i < old(self).selections@.len() ==> (#[trigger] old(self).selections@[i]).head.line
                    + amount <= usize::MAX,
        ensures
            is_merge_of(
                final(self).selections@,
                old(self).selections@.map_values(
                    |s: Selection| with_head(s, paged_down_head(old(self).text(), s.head, amount as nat), expand),
                ),
            ),
            final(self).text() == old(self).text(),
            final(self).history@ == old(self).history@,
            final(self).id == old(self).id,
            final(self).file_name == old(self).file_name,
            final(self).file_info == old(self).file_info,
    {
        let ghost t = self.text();
        let ghost f = |s: Selection| with_head(s, paged_down_head(t, s.head, amount as nat), expand);
        let n = rope_len_lines(&self.rope);
        let mut out: Vec<Selection> = Vec::new();
        for i in 0..self.selections.len()
            invariant
                t == self.text(),
                n == line_count(t),
                sels_valid(t, self.selections@),
                forall|j: int|
                    0 <= j < self.selections@.len() ==> (#[trigger] self.selections@[j]).head.line
                        + amount <= usize::MAX,
                f == (|s: Selection| with_head(s, paged_down_head(t, s.head, amount as nat), expand)),
                out@ =~= self.selections@.take(i as int).map_values(f),
        {
            let s = self.selections[i];
            let line = if s.head.line + amount < n {
                s.head.line + amount
            } else {
                n - 1
            };
            let h = self.vertical(s.head, line);
            let tail = if expand {
                s.tail
            } else {
                h
            };
            out.push(Selection { head: h, tail, is_clone: s.is_clone });
            proof {
                assert(self.selections@.take(i + 1).map_values(f) =~= self.selections@.take(
                    i as int,
                ).map_values(f).push(f(s)));
            }
        }
        assert(self.selections@.take(self.selections@.len() as int) =~= self.selections@);
        self.selections = out;
        self.merge_selections();
    }

    /// The number of whitespace chars that open line `line`.
    pub fn get_line_start_boundary(&self, line: usize) -> (r: usize)
        requires
            line < line_count(self.text()),
        ensures
            r == leading_whitespace(line_text(self.text(), line as int)),
    {
        get_line_start_boundary(&self.rope, line)
    }
}

/// The number of whitespace chars that open line `line` of `rope`.
pub fn get_line_start_boundary(rope: &Rope, line: usize) -> (r: usize)
    requires
        line < line_count(rope_text(*rope)),
    ensures
        r == leading_whitespace(line_text(rope_text(*rope), line as int)),
{
    let s = crate::document::rope_line(rope, line);
    let c = chars_of(s.as_str());
    let mut k: usize = 0;
    while k < c.len() && is_whitespace(c[k])
        invariant
            k <= c@.len(),
            forall|j: int| 0 <= j < k ==> char_is_whitespace(#[trigger] c@[j]),
        decreases c@.len() - k,
    {
        k += 1;
    }
    proof {
        lemma_leading_whitespace(c@, k as int);
    }
    k
}

impl Document {
    /// Takes every cursor to where the text of its line starts, or to the
    /// start of the line when it is there already, the anchors with them
    /// unless `expand`, and merges the selections that then collide.
    pub fn home(&mut self, expand: bool)
        requires
            old(self).selections@.len() >= 1,
            sels_valid(old(self).text(), old(self).selections@),
        ensures
            is_merge_of(
                final(self).selections@,
                old(self).selections@.map_values(
                    |s: Selection| with_head(s, home_head(old(self).text(), s.head), expand),
                ),
            ),
            final(self).text() == old(self).text(),
            final(self).history@ == old(self).history@,
            final(self).id == old(self).id,
            final(self).file_name == old(self).file_name,
            final(self).file_info == old(self).file_info,
    {
        let ghost t = self.text();
        let ghost f = |s: Selection| with_head(s, home_head(t, s.head), expand);
        let mut out: Vec<Selection> = Vec::new();
        for i in 0..self.selections.len()
            invariant
                t == self.text(),
                sels_valid(t, self.selections@),
                f == (|s: Selection| with_head(s, home_head(t, s.head), expand)),
                out@ =~= self.selections@.take(i as int).map_values(f),
        {
            let s = self.selections[i];
            let b = self.get_line_start_boundary(s.head.line);
            let c = if s.head.column == b {
                0
            } else {
                b
            };
            let h = Position { line: s.head.line, column: c, vcol: c };
            let tail = if expand {
                s.tail
            } else {
                h
            };
            out.push(Selection { head: h, tail, is_clone: s.is_clone });
            proof {
                assert(self.selections@.take(i + 1).map_values(f) =~= self.selections@.take(
                    i as int,
                ).map_values(f).push(f(s)));
            }
        }
        assert(self.selections@.take(self.selections@.len() as int) =~= self.selections@);
        self.selections = out;
        self.merge_selections();
    }

    /// Takes every cursor to the end of its line, the anchors with them
    /// unless `expand`, and merges the selections that then collide.
    pub fn end(&mut self, expand: bool)
        requires
            old(self).selections@.len() >= 1,
            sels_valid(old(self).text(), old(self).selections@),
        ensures
            is_merge_of(
                final(self).selections@,
                old(self).selections@.map_values(
                    |s: Selection| with_head(s, end_head(old(self).text(), s.head), expand),
                ),
            ),
            final(self).text() == old(self).text(),
            final(self).history@ == old(self).history@,
            final(self).id == old(self).id,
            final(self).file_name == old(self).file_name,
            final(self).file_info == old(self).file_info,
    {
        let ghost t = self.text();
        let ghost f = |s: Selection| with_head(s, end_head(t, s.head), expand);
        let mut out: Vec<Selection> = Vec::new();
        for i in 0..self.selections.len()
            invariant
                t == self.text(),
                sels_valid(t, self.selections@),
                f == (|s: Selection| with_head(s, end_head(t, s.head), expand)),
                out@ =~= self.selections@.take(i as int).map_values(f),
        {
            let s = self.selections[i];
            let c = line_len_grapheme(&self.rope, s.head.line);
            let h = Position { line: s.head.line, column: c, vcol: c };
            let tail = if expand {
                s.tail
            } else {
                h
            };
            out.push(Selection { head: h, tail, is_clone: s.is_clone });
            proof {
                assert(self.selections@.take(i + 1).map_values(f) =~= self.selections@.take(
                    i as int,
                ).map_values(f).push(f(s)));
            }
        }
        assert(self.selections@.take(self.selections@.len() as int) =~= self.selections@);
        self.selections = out;
        self.merge_selections();
    }

    /// Adds a cursor on the line below the greatest selection (`Down`) or
    /// above the least one (`Up`), at its visible column, when there is
    /// such a line, and merges the selections that then collide.
    pub fn duplicate_selection(&mut self, direction: MoveDirection)
        requires
            old(self).selections@.len() >= 1,
            sels_valid(old(self).text(), old(self).selections@),
        ensures
            is_merge_of(
                final(self).selections@,
                duplicated(old(self).text(), old(self).selections@, direction),
            ),
            final(self).text() == old(self).text(),
            final(self).history@ == old(self).history@,
            final(self).id == old(self).id,
            final(self).file_name == old(self).file_name,
            final(self).file_info == old(self).file_info,
    {
        let ghost t = self.text();
        let ghost sels = self.selections@;
        match direction {
            MoveDirection::Down => {
                let mut best = self.selections[0];
                for i in 1..self.selections.len()
                    invariant
                        sels == self.selections@,
                        sels.len() >= 1,
                        sels.contains(best),
                        forall|k: int| 0 <= k < i ==> sel_le(#[trigger] sels[k], best),
                {
                    if sel_le_exec(best, self.selections[i]) {
                        best = self.selections[i];
                    }
                }
                proof {
                    let c = choose|s: Selection| is_greatest(s, sels);
                    assert(is_greatest(best, sels));
                    let j = choose|j: int| 0 <= j < sels.len() && sels[j] == c;
                    assert(sel_le(sels[j], best));
                    let k = choose|k: int| 0 <= k < sels.len() && sels[k] == best;
                    assert(sel_le(sels[k], c));
                    lemma_sel_le_antisymmetric(c, best);
                }
                let h = self.moved(best.head, MoveDirection::Down);
                if h.line > best.head.line {
                    self.selections.push(Selection { head: h, tail: h, is_clone: true });
                }
            },
            MoveDirection::Up => {
                let mut least = self.selections[0];
                for i in 1..self.selections.len()
                    invariant
                        sels == self.selections@,
                        sels.len() >= 1,
                        sels.contains(least),
                        forall|k: int| 0 <= k < i ==> sel_le(least, #[trigger] sels[k]),
                {
                    if sel_le_exec(self.selections[i], least) {
                        least = self.selections[i];
                    }
                }
                proof {
                    let c = choose|s: Selection| is_least(s, sels);
                    assert(is_least(least, sels));
                    let j = choose|j: int| 0 <= j < sels.len() && sels[j] == c;
                    assert(sel_le(least, sels[j]));
                    let k = choose|k: int| 0 <= k < sels.len() && sels[k] == least;
                    assert(sel_le(c, sels[k]));
                    lemma_sel_le_antisymmetric(c, least);
                }
                let h = self.moved(least.head, MoveDirection::Up);
                if h.line < least.head.line {
                    self.selections.push(Selection { head: h, tail: h, is_clone: true });
                }
            },
            _ => {},
        }
        self.merge_selections();
    }
}

proof fn lemma_leading_whitespace(c: Seq<char>, k: int)
    requires
        0 <= k <= c.len(),
        forall|j: int| 0 <= j < k ==> char_is_whitespace(#[trigger] c[j]),
        k == c.len() || !char_is_whitespace(c[k]),
    ensures
        leading_whitespace(c) == k,
    decreases k,
{
    if k > 0 {
        let d = c.skip(1);
        assert forall|j: int| 0 <= j < k - 1 implies char_is_whitespace(#[trigger] d[j]) by {
            assert(d[j] == c[j + 1]);
        }
        if k - 1 < d.len() {
            assert(d[k - 1] == c[k]);
        }
        lemma_leading_whitespace(d, k - 1);
    }
}

} // verus!

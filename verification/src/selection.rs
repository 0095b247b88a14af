//! Cursor positions and selections.
use vstd::prelude::*;
use core::cmp::Ordering;

verus! {

/// A cursor position: a line and a grapheme column in it, with the visible
/// column that vertical motions try to keep.
#[derive(Debug, Clone, Copy, Eq, Hash)]
pub struct Position {
    pub line: usize,
    pub column: usize,
    pub vcol: usize,
}

impl Position {
    /// `self` comes strictly before `other` (by line, then column).
    pub open spec fn precedes(self, other: Position) -> bool {
        self.line < other.line || (self.line == other.line && self.column < other.column)
    }

    /// `self` comes before or at `other` (by line, then column).
    pub open spec fn precedes_eq(self, other: Position) -> bool {
        self.line < other.line || (self.line == other.line && self.column <= other.column)
    }

    /// `self` and `other` name the same place (the visible column is ignored).
    pub open spec fn same_place(self, other: Position) -> bool {
        self.line == other.line && self.column == other.column
    }

    /// The total order of the derived `Ord`: line, column, then visible column.
    pub open spec fn greater_full(self, other: Position) -> bool {
        self.line > other.line || (self.line == other.line && (self.column > other.column || (
        self.column == other.column && self.vcol > other.vcol)))
    }

    pub open spec fn spec_vcol(self) -> usize {
        self.vcol
    }

    /// The position at `line_idx`, `column_idx`, whose visible column is the
    /// column.
    pub fn new(line_idx: usize, column_idx: usize) -> (r: Self)
        ensures
            r.line == line_idx,
            r.column == column_idx,
            r.vcol == column_idx,
    {
        Self { line: line_idx, column: column_idx, vcol: column_idx }
    }

    /// The visible column that vertical motions keep.
    pub fn vcol(&self) -> (r: usize)
        ensures
            r == self.vcol,
    {
        self.vcol
    }

    /// The larger of two positions in the order of the derived `Ord` (line,
    /// column, visible column); `other` when they are equal.
    pub fn max_full(self, other: Position) -> (r: Position)
        ensures
            r == (if self.greater_full(other) {
                self
            } else {
                other
            }),
    {
        if self.line > other.line || (self.line == other.line && (self.column > other.column || (
        self.column == other.column && self.vcol > other.vcol))) {
            self
        } else {
            other
        }
    }
}

impl Default for Position {
    fn default() -> (r: Self)
        ensures
            r.line == 0 && r.column == 0 && r.vcol == 0,
    {
        Position { line: 0, column: 0, vcol: 0 }
    }
}

impl PartialEq for Position {
    fn eq(&self, other: &Self) -> (r: bool) {
        self.line == other.line && self.column == other.column
    }
}

impl vstd::std_specs::cmp::PartialEqSpecImpl for Position {
    open spec fn obeys_eq_spec() -> bool {
        true
    }

    open spec fn eq_spec(&self, other: &Position) -> bool {
        self.line == other.line && self.column == other.column
    }
}

impl PartialOrd for Position {
    fn partial_cmp(&self, other: &Self) -> (r: Option<Ordering>) {
        if self.line < other.line {
            Some(Ordering::Less)
        } else if self.line > other.line {
            Some(Ordering::Greater)
        } else if self.column < other.column {
            Some(Ordering::Less)
        } else if self.column > other.column {
            Some(Ordering::Greater)
        } else {
            Some(Ordering::Equal)
        }
    }
}

impl vstd::std_specs::cmp::PartialOrdSpecImpl for Position {
    open spec fn obeys_partial_cmp_spec() -> bool {
        true
    }

    open spec fn partial_cmp_spec(&self, other: &Position) -> Option<Ordering> {
        self.order_to(*other)
    }
}

/// A selection from `tail` (the anchor) to `head` (the cursor); `is_clone`
/// marks the extra cursors of a multi-cursor edit.
#[derive(Debug, Clone, Copy, Eq, Hash)]
pub struct Selection {
    pub head: Position,
    pub tail: Position,
    pub is_clone: bool,
}

impl PartialEq for Selection {
    fn eq(&self, other: &Self) -> (r: bool) {
        self.head == other.head && self.tail == other.tail && self.is_clone == other.is_clone
    }
}

impl vstd::std_specs::cmp::PartialEqSpecImpl for Selection {
    open spec fn obeys_eq_spec() -> bool {
        true
    }

    open spec fn eq_spec(&self, other: &Selection) -> bool {
        self.head.same_place(other.head) && self.tail.same_place(other.tail) && self.is_clone
            == other.is_clone
    }
}

impl PartialOrd for Selection {
    fn partial_cmp(&self, other: &Self) -> (r: Option<Ordering>) {
        self.tail.partial_cmp(&other.head)
    }
}

impl vstd::std_specs::cmp::PartialOrdSpecImpl for Selection {
    open spec fn obeys_partial_cmp_spec() -> bool {
        true
    }

    open spec fn partial_cmp_spec(&self, other: &Selection) -> Option<Ordering> {
        self.tail.order_to(other.head)
    }
}

impl Default for Selection {
    fn default() -> (r: Self)
        ensures
            r.head == Position::new_spec(0, 0),
            r.tail == Position::new_spec(0, 0),
            !r.is_clone,
    {
        Selection { head: Position::default(), tail: Position::default(), is_clone: false }
    }
}

impl Position {
    /// The order of `partial_cmp`: by line, then column.
    pub open spec fn order_to(self, other: Position) -> Option<Ordering> {
        if self.line < other.line {
            Some(Ordering::Less)
        } else if self.line > other.line {
            Some(Ordering::Greater)
        } else if self.column < other.column {
            Some(Ordering::Less)
        } else if self.column > other.column {
            Some(Ordering::Greater)
        } else {
            Some(Ordering::Equal)
        }
    }

    pub open spec fn new_spec(line: usize, column: usize) -> Position {
        Position { line, column, vcol: column }
    }
}

impl Selection {
    pub open spec fn default_spec() -> Selection {
        Selection { head: Position::new_spec(0, 0), tail: Position::new_spec(0, 0), is_clone: false }
    }

    pub open spec fn new_spec(head: Position, tail: Position, is_clone: bool) -> Selection {
        Selection { head, tail, is_clone }
    }

    pub open spec fn spec_start(self) -> Position {
        if self.head.precedes_eq(self.tail) {
            self.head
        } else {
            self.tail
        }
    }

    pub open spec fn spec_end(self) -> Position {
        if self.tail.precedes(self.head) {
            self.head
        } else {
            self.tail
        }
    }

    pub open spec fn spec_is_clone(self) -> bool {
        self.is_clone
    }

    /// Whether `merge_with` extends this selection over `other`.
    pub open spec fn spec_merges(self, other: Selection) -> bool {
        if self.head.precedes(self.tail) {
            other.head.precedes(self.tail)
        } else {
            other.tail.precedes(self.head)
        }
    }

    /// This selection after `merge_with(other)`.
    pub open spec fn spec_merge_with(self, other: Selection) -> Selection {
        if !self.spec_merges(other) {
            self
        } else if self.head.precedes(self.tail) {
            Selection { tail: other.tail.max_full_spec(self.tail), ..self }
        } else {
            Selection { head: other.head.max_full_spec(self.head), ..self }
        }
    }

    pub open spec fn spec_collide_with(self, other: Selection) -> bool {
        other.spec_start().precedes(self.spec_end()) || (self.head.same_place(self.tail)
            && self.head.same_place(other.head))
    }

    pub fn new(head: Position, tail: Position, is_clone: bool) -> (r: Self)
        ensures
            r.head == head,
            r.tail == tail,
            r.is_clone == is_clone,
    {
        Self { head, tail, is_clone }
    }

    /// Whether this selection is an extra cursor of a multi-cursor edit.
    pub fn is_clone(&self) -> (r: bool)
        ensures
            r == self.is_clone,
    {
        self.is_clone
    }

    /// The first of head and tail (the head when they are at the same place).
    pub fn start(&self) -> (r: Position)
        ensures
            r == self.spec_start(),
    {
        if self.head <= self.tail {
            self.head
        } else {
            self.tail
        }
    }

    /// The last of head and tail (the tail when they are at the same place).
    pub fn end(&self) -> (r: Position)
        ensures
            r == self.spec_end(),
    {
        if self.head > self.tail {
            self.head
        } else {
            self.tail
        }
    }

    /// Extends this selection over `other` when `other` begins before this
    /// selection's far end (seen from its direction); returns whether it did.
    pub fn merge_with(&mut self, other: Selection) -> (merged: bool)
        ensures
            merged == old(self).spec_merges(other),
            *final(self) == old(self).spec_merge_with(other),
    {
        if self.head < self.tail {
            if other.head < self.tail {
                self.tail = other.tail.max_full(self.tail);
                return true;
            }
        } else {
            if other.tail < self.head {
                self.head = other.head.max_full(self.head);
                return true;
            }
        }
        false
    }

    /// Whether `other`, taken to follow this selection, overlaps it: it
    /// starts before this selection ends, or both are cursors at the same
    /// place.
    pub fn collide_with(&self, other: Selection) -> (r: bool)
        ensures
            r == self.spec_collide_with(other),
    {
        self.end() > other.start() || (self.head == self.tail && self.head == other.head)
    }

    /// Whether head and tail are on the same line.
    pub fn is_single_line(&self) -> (r: bool)
        ensures
            r == (self.head.line == self.tail.line),
    {
        self.head.line == self.tail.line
    }
}

impl Position {
    pub open spec fn max_full_spec(self, other: Position) -> Position {
        if self.greater_full(other) {
            self
        } else {
            other
        }
    }
}

/// The part of a selection that lies on one line, as a range of grapheme
/// columns; `include_eol` when the selection goes on past the line's end.
#[derive(Debug, Clone, Copy)]
pub struct SelectionAera {
    pub col_start: usize,
    pub col_end: usize,
    pub line: usize,
    pub include_eol: bool,
    pub id: Selection,
}

impl SelectionAera {
    pub fn new(col_start: usize, col_end: usize, line: usize, include_eol: bool, id: Selection) -> (r:
        Self)
        ensures
            r.col_start == col_start,
            r.col_end == col_end,
            r.line == line,
            r.include_eol == include_eol,
            r.id == id,
    {
        Self { col_start, col_end, line, include_eol, id }
    }
}

/// The directions of cursor motions.
#[derive(Debug, Clone, Copy, PartialEq, Eq, Structural)]
pub enum MoveDirection {
    Up,
    Down,
    Left,
    Right,
}

/// The start of a selection comes at or before its end, and they are its
/// head and tail.
pub proof fn lemma_selection_bounds(s: Selection)
    ensures
        s.spec_start().precedes_eq(s.spec_end()),
        (s.spec_start() == s.head && s.spec_end() == s.tail) || (s.spec_start() == s.tail
            && s.spec_end() == s.head),
{
}

} // verus!

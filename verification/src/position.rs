//! Positions inside the text and the selection between two of them.

use vstd::prelude::*;

verus! {

/// A place in the text: a row, and a column counted in code points.
#[derive(PartialEq, Eq, Structural, Debug, Clone, Copy)]
pub struct Pos {
    pub row: usize,
    pub column: usize,
}

/// The stride of the linear rank: one more than the largest column a `Pos`
/// can hold, so that no column ever reaches into the next row's range.
pub open spec fn row_stride() -> int {
    usize::MAX + 1
}

impl Pos {
    /// The linear rank of the position in document order.
    pub open spec fn rank(self) -> int {
        self.row * row_stride() + self.column
    }

    /// Document order: rows first, columns within a row.
    pub open spec fn precedes(self, other: Pos) -> bool {
        self.row < other.row || (self.row == other.row && self.column < other.column)
    }

    /// The position at the given row and column.
    pub fn from_row_column(row_index: usize, column_index: usize) -> (p: Pos)
        ensures
            p == (Pos { row: row_index, column: column_index }),
    {
        Pos { row: row_index, column: column_index }
    }

    /// The position in the same row at column `col`.
    pub fn with_column(&self, col: usize) -> (p: Pos)
        ensures
            p == (Pos { row: self.row, column: col }),
    {
        Pos { row: self.row, column: col }
    }

    /// Whether `self` comes strictly before `other` in document order.
    pub fn is_before(&self, other: &Pos) -> (b: bool)
        ensures
            b == self.precedes(*other),
            b == (self.rank() < other.rank()),
    {
        proof {
            lemma_rank_orders(*self, *other);
        }
        self.row < other.row || (self.row == other.row && self.column < other.column)
    }
}

/// The rank is strictly monotone in document order, hence injective.
pub proof fn lemma_rank_orders(a: Pos, b: Pos)
    ensures
        a.precedes(b) <==> a.rank() < b.rank(),
        a.rank() == b.rank() <==> a == b,
{
    let s = row_stride();
    if a.row < b.row {
        assert(a.row * s + s <= b.row * s) by (nonlinear_arith)
            requires
                a.row + 1 <= b.row,
                s > 0,
        ;
    } else if b.row < a.row {
        assert(b.row * s + s <= a.row * s) by (nonlinear_arith)
            requires
                b.row + 1 <= a.row,
                s > 0,
        ;
    }
}

/// The mathematical value of a [`Selection`]: the anchor, fixed where the
/// selection began, and the floating end that moves while it is extended.
pub struct SelectionView {
    pub anchor: Pos,
    pub end: Option<Pos>,
}

impl SelectionView {
    /// A caret at `pos`, with no range.
    pub open spec fn caret(pos: Pos) -> SelectionView {
        SelectionView { anchor: pos, end: None }
    }

    /// The selection from `anchor` to `end`; a caret where the two coincide.
    pub open spec fn range(anchor: Pos, end: Pos) -> SelectionView {
        SelectionView { anchor, end: if anchor == end { None } else { Some(end) } }
    }

    /// A range never has its floating end on its anchor.
    pub open spec fn well_formed(self) -> bool {
        self.end != Some(self.anchor)
    }

    /// Whether a range is selected, as opposed to a caret.
    pub open spec fn is_range(self) -> bool {
        self.end is Some
    }

    /// The moving point: the floating end of a range, else the caret itself.
    pub open spec fn cursor(self) -> Pos {
        match self.end {
            Some(end) => end,
            None => self.anchor,
        }
    }

    /// The edge with the smaller rank.
    pub open spec fn first(self) -> Pos {
        match self.end {
            Some(end) => if end.rank() < self.anchor.rank() { end } else { self.anchor },
            None => self.anchor,
        }
    }

    /// The edge with the larger rank.
    pub open spec fn second(self) -> Pos {
        match self.end {
            Some(end) => if end.rank() > self.anchor.rank() { end } else { self.anchor },
            None => self.anchor,
        }
    }

    /// Keeps the anchor and moves the floating end to `new_end`.
    pub open spec fn extend(self, new_end: Pos) -> SelectionView {
        SelectionView::range(self.anchor, new_end)
    }
}

/// The two edges of a selection are ordered by rank, whichever of anchor and
/// floating end comes first in the document.
pub proof fn lemma_first_precedes_second(s: SelectionView)
    ensures
        s.first().rank() <= s.second().rank(),
        s.first() == s.anchor || Some(s.first()) == s.end,
        s.second() == s.anchor || Some(s.second()) == s.end,
        s.is_range() && s.well_formed() ==> s.first().precedes(s.second()),
        !s.is_range() ==> s.first() == s.second(),
        !s.second().precedes(s.first()),
{
    if let Some(end) = s.end {
        lemma_rank_orders(end, s.anchor);
        lemma_rank_orders(s.anchor, end);
    }
    lemma_rank_orders(s.second(), s.first());
}

/// A caret, or a range between an anchor and a floating end.
#[derive(PartialEq, Eq, Debug, Clone, Copy)]
pub struct Selection {
    start: Pos,
    end: Option<Pos>,
}

impl View for Selection {
    type V = SelectionView;

    closed spec fn view(&self) -> SelectionView {
        SelectionView { anchor: self.start, end: self.end }
    }
}

impl Selection {
    /// A range never has its floating end on its anchor.
    #[verifier::type_invariant]
    spec fn never_degenerate(self) -> bool {
        self.end != Some(self.start)
    }

    /// A caret at `pos`.
    pub fn from_pos(pos: Pos) -> (s: Selection)
        ensures
            s@ == SelectionView::caret(pos),
    {
        Selection { start: pos, end: None }
    }

    /// A caret at the given row and column.
    pub fn single(row_index: usize, column_index: usize) -> (s: Selection)
        ensures
            s@ == SelectionView::caret(Pos { row: row_index, column: column_index }),
    {
        Selection { start: Pos { row: row_index, column: column_index }, end: None }
    }

    /// The selection from `start` to `end`; a caret where the two coincide.
    pub fn range(start: Pos, end: Pos) -> (s: Selection)
        ensures
            s@ == SelectionView::range(start, end),
            s@.well_formed(),
    {
        Selection { start, end: if start == end { None } else { Some(end) } }
    }

    /// Whether a range is selected, as opposed to a caret.
    pub fn is_range(&self) -> (b: bool)
        ensures
            b == self@.is_range(),
            self@.well_formed(),
    {
        proof {
            use_type_invariant(self);
        }
        self.end.is_some()
    }

    /// The anchor: where the selection began.
    pub fn start(&self) -> (p: Pos)
        ensures
            p == self@.anchor,
    {
        self.start
    }

    /// The floating end of a range; `None` for a caret.
    pub fn end(&self) -> (p: Option<Pos>)
        ensures
            p == self@.end,
            p != Some(self@.anchor),
    {
        proof {
            use_type_invariant(self);
        }
        self.end
    }

    /// The edge that comes first in the document.
    pub fn get_first(&self) -> (p: Pos)
        ensures
            p == self@.first(),
            p.rank() <= self@.second().rank(),
    {
        proof {
            lemma_first_precedes_second(self@);
        }
        match self.end {
            Some(end) => if end.is_before(&self.start) { end } else { self.start },
            None => self.start,
        }
    }

    /// The edge that comes last in the document.
    pub fn get_second(&self) -> (p: Pos)
        ensures
            p == self@.second(),
            self@.first().rank() <= p.rank(),
    {
        proof {
            lemma_first_precedes_second(self@);
        }
        match self.end {
            Some(end) => if self.start.is_before(&end) { end } else { self.start },
            None => self.start,
        }
    }

    /// The selection with the same anchor and the floating end at `new_end`;
    /// a caret where the two coincide.
    pub fn extend(&self, new_end: Pos) -> (s: Selection)
        ensures
            s@ == self@.extend(new_end),
            s@.well_formed(),
    {
        if self.start == new_end {
            Selection::single(new_end.row, new_end.column)
        } else {
            Selection::range(self.start, new_end)
        }
    }

    /// The moving point: the floating end of a range, else the caret.
    pub fn get_cursor_pos(&self) -> (p: Pos)
        ensures
            p == self@.cursor(),
    {
        match self.end {
            Some(end) => end,
            None => self.start,
        }
    }
}

} // verus!

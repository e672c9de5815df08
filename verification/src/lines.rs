//! The line store as mathematics: rows of code points and the row-level
//! operations on them. The editor's contracts are stated over these.

use vstd::prelude::*;
use crate::position::Pos;

verus! {

/// The text as a sequence of rows, each a sequence of code points.
pub type Rows = Seq<Seq<char>>;

/// What a vector of rows holds.
pub open spec fn row_views(rows: Vec<Vec<char>>) -> Rows {
    rows@.map_values(|row: Vec<char>| row@)
}

/// No row is longer than `max` code points.
pub open spec fn rows_fit(rows: Rows, max: int) -> bool {
    forall|i: int| 0 <= i < rows.len() ==> (#[trigger] rows[i]).len() <= max
}

/// `pos` names a place of the text: an existing row, and a column inside it
/// or right behind its last character.
pub open spec fn holds(rows: Rows, pos: Pos) -> bool {
    pos.row < rows.len() && pos.column <= rows[pos.row as int].len()
}

/// `first` and `second` are places of the text, in document order.
pub open spec fn spans(rows: Rows, first: Pos, second: Pos) -> bool {
    &&& holds(rows, first)
    &&& holds(rows, second)
    &&& first.row <= second.row
    &&& first.row == second.row ==> first.column <= second.column
}

/// The rows with `ch` inserted in front of column `col` of row `row`.
pub open spec fn with_char_inserted(rows: Rows, row: int, col: int, ch: char) -> Rows {
    rows.update(row, rows[row].insert(col, ch))
}

/// The rows without the character at column `col` of row `row`.
pub open spec fn with_char_removed(rows: Rows, row: int, col: int) -> Rows {
    rows.update(row, rows[row].remove(col))
}

/// The rows with the cell at column `col` of row `row` overwritten, after
/// empty rows have been appended until row `row` exists. A cell behind the end
/// of its row is no part of the text: writing to it changes nothing.
pub open spec fn with_char_set(rows: Rows, row: int, col: int, ch: char) -> Rows {
    let padded = padded_to(rows, row + 1);
    if 0 <= col < padded[row].len() {
        padded.update(row, padded[row].update(col, ch))
    } else {
        padded
    }
}

/// The rows, followed by as many empty rows as it takes to have `count`.
pub open spec fn padded_to(rows: Rows, count: int) -> Rows {
    if rows.len() >= count {
        rows
    } else {
        rows + Seq::new((count - rows.len()) as nat, |i: int| Seq::<char>::empty())
    }
}

/// Every row emptied, none removed.
pub open spec fn all_cleared(rows: Rows) -> Rows {
    Seq::new(rows.len(), |i: int| Seq::<char>::empty())
}

/// Row `row` cut in two at column `at`: what stood at and behind `at` becomes
/// a new row right below.
pub open spec fn cut_at(rows: Rows, row: int, at: int) -> Rows {
    rows.update(row, rows[row].take(at)).insert(row + 1, rows[row].skip(at))
}

/// Whether row `row` and the row below it fit into one row together.
pub open spec fn can_merge(rows: Rows, row: int, max: int) -> bool {
    rows[row].len() + rows[row + 1].len() <= max
}

/// Row `row` up to `first_col`, continued by the row below from `second_col`
/// on; the row below is gone.
pub open spec fn merged(rows: Rows, row: int, first_col: int, second_col: int) -> Rows {
    rows.update(row, rows[row].take(first_col) + rows[row + 1].skip(second_col)).remove(row + 1)
}

/// Whether the text between `first` and `second` can be taken out: always
/// inside one row; across rows only if the two edge rows fit into one.
pub open spec fn can_remove_range(rows: Rows, first: Pos, second: Pos, max: int) -> bool {
    first.row == second.row || rows[first.row as int].len() + rows[second.row as int].len() <= max
}

/// The rows without the text between `first` and `second`: the rows in front
/// of `first.row`, one row made of what precedes `first` and what follows
/// `second`, and the rows behind `second.row`.
pub open spec fn without_range(rows: Rows, first: Pos, second: Pos) -> Rows {
    rows.take(first.row as int).push(
        rows[first.row as int].take(first.column as int) + rows[second.row as int].skip(
            second.column as int,
        ),
    ) + rows.skip(second.row + 1)
}

/// Every row followed by a line feed, the last one too.
pub open spec fn joined(rows: Rows) -> Seq<char>
    decreases rows.len(),
{
    if rows.len() == 0 {
        Seq::empty()
    } else {
        joined(rows.drop_last()) + rows.last().push('\n')
    }
}

/// The text between `first` and `second`, rows separated by a line feed.
pub open spec fn text_between(rows: Rows, first: Pos, second: Pos) -> Seq<char> {
    if second.row > first.row {
        rows[first.row as int].skip(first.column as int).push('\n') + joined(
            rows.subrange(first.row + 1, second.row as int),
        ) + rows[second.row as int].take(second.column as int)
    } else {
        rows[first.row as int].subrange(first.column as int, second.column as int)
    }
}

/// Whether `ch` ends a line or is dropped when text is laid out.
pub open spec fn is_line_break(ch: char) -> bool {
    ch == '\n' || ch == '\r'
}

/// One character of a text laid out behind the end of row `row`. A carriage
/// return is dropped, a line feed opens a new row below, and any other
/// character goes to the end of the row, or opens a new row below if the row
/// is full. The result is the rows and the row that the next character meets.
pub open spec fn placed(rows: Rows, row: int, ch: char, max: int) -> (Rows, int) {
    if ch == '\r' {
        (rows, row)
    } else if ch == '\n' {
        (rows.insert(row + 1, Seq::empty()), row + 1)
    } else if rows[row].len() >= max {
        (rows.insert(row + 1, seq![ch]), row + 1)
    } else {
        (rows.update(row, rows[row].push(ch)), row)
    }
}

/// A text laid out behind the end of row `row`, character by character.
pub open spec fn laid_out(rows: Rows, row: int, text: Seq<char>, max: int) -> (Rows, int)
    decreases text.len(),
{
    if text.len() == 0 {
        (rows, row)
    } else {
        let (next_rows, next_row) = placed(rows, row, text[0], max);
        laid_out(next_rows, next_row, text.drop_first(), max)
    }
}

/// A text can be laid out in rows of `max` cells: rows of no cells take line
/// breaks only.
pub open spec fn can_lay_out(text: Seq<char>, max: int) -> bool {
    max > 0 || forall|i: int| 0 <= i < text.len() ==> is_line_break(#[trigger] text[i])
}

/// The rows after `text` has replaced what stood at and behind column `col`
/// of row `row`, and the row in which the text ends.
pub open spec fn text_inserted(rows: Rows, row: int, col: int, text: Seq<char>, max: int) -> (
    Rows,
    int,
) {
    laid_out(rows.update(row, rows[row].take(col)), row, text, max)
}

/// What one laid-out character leaves as it was: the rows stay within the
/// capacity, the rows in front of and behind the affected ones are untouched,
/// and the current row moves down by as many rows as were opened.
pub proof fn lemma_placed(rows: Rows, row: int, ch: char, max: int)
    requires
        0 <= row < rows.len(),
        rows_fit(rows, max),
        max > 0 || is_line_break(ch),
    ensures
        ({
            let (next_rows, next_row) = placed(rows, row, ch, max);
            &&& rows_fit(next_rows, max)
            &&& row <= next_row < next_rows.len()
            &&& next_rows.len() - rows.len() == next_row - row
            &&& next_rows.take(row) == rows.take(row)
            &&& next_rows.skip(next_row + 1) == rows.skip(row + 1)
            &&& rows[row].is_prefix_of(next_rows[row])
        }),
{
    let (next_rows, next_row) = placed(rows, row, ch, max);
    assert(next_rows[row].take(rows[row].len() as int) =~= rows[row]);
    assert(next_rows.take(row) =~= rows.take(row));
    assert(next_rows.skip(next_row + 1) =~= rows.skip(row + 1));
    assert forall|i: int| 0 <= i < next_rows.len() implies (#[trigger] next_rows[i]).len()
        <= max by {
        if i < row {
            assert(next_rows[i] == rows[i]);
        } else if i > next_row {
            assert(next_rows[i] == rows[i - (next_row - row)]);
        } else if i == row && next_row > row {
            assert(next_rows[i] == rows[i]);
        }
    }
}

/// What a laid-out text leaves as it was: see [`lemma_placed`].
pub proof fn lemma_laid_out(rows: Rows, row: int, text: Seq<char>, max: int)
    requires
        0 <= row < rows.len(),
        rows_fit(rows, max),
        can_lay_out(text, max),
    ensures
        ({
            let (next_rows, next_row) = laid_out(rows, row, text, max);
            &&& rows_fit(next_rows, max)
            &&& row <= next_row < next_rows.len()
            &&& next_rows.len() - rows.len() == next_row - row
            &&& next_rows.take(row) == rows.take(row)
            &&& next_rows.skip(next_row + 1) == rows.skip(row + 1)
            &&& rows[row].is_prefix_of(next_rows[row])
        }),
    decreases text.len(),
{
    if text.len() > 0 {
        let (mid_rows, mid_row) = placed(rows, row, text[0], max);
        let (next_rows, next_row) = laid_out(mid_rows, mid_row, text.drop_first(), max);
        lemma_placed(rows, row, text[0], max);
        assert forall|i: int| 0 <= i < text.drop_first().len() implies is_line_break(
            #[trigger] text.drop_first()[i],
        ) || max > 0 by {
            assert(text.drop_first()[i] == text[i + 1]);
        }
        lemma_laid_out(mid_rows, mid_row, text.drop_first(), max);
        assert(next_rows.take(row) =~= mid_rows.take(row)) by {
            assert(next_rows.take(mid_row).take(row) =~= next_rows.take(row));
            assert(mid_rows.take(mid_row).take(row) =~= mid_rows.take(row));
        }
        assert(rows[row].is_prefix_of(next_rows[row])) by {
            if mid_row > row {
                assert(next_rows[row] == next_rows.take(mid_row)[row]);
                assert(mid_rows[row] == mid_rows.take(mid_row)[row]);
            }
            assert(next_rows[row].take(rows[row].len() as int) =~= rows[row]);
        }
    }
}

/// Laying out two texts one after the other is laying out both as one.
pub proof fn lemma_laid_out_in_two(rows: Rows, row: int, head: Seq<char>, tail: Seq<char>, max: int)
    ensures
        laid_out(rows, row, head + tail, max) == ({
            let (mid_rows, mid_row) = laid_out(rows, row, head, max);
            laid_out(mid_rows, mid_row, tail, max)
        }),
    decreases head.len(),
{
    if head.len() == 0 {
        assert(head + tail =~= tail);
    } else {
        let (mid_rows, mid_row) = placed(rows, row, head[0], max);
        assert((head + tail).drop_first() =~= head.drop_first() + tail);
        lemma_laid_out_in_two(mid_rows, mid_row, head.drop_first(), tail, max);
    }
}

} // verus!

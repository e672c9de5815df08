//! Laws that relate several operations of the editor.

use vstd::prelude::*;
use crate::input::{InputKey, InputModifiers};
use crate::lines::{
    all_cleared, can_lay_out, can_merge, can_remove_range, cut_at, holds, is_line_break, joined,
    laid_out, lemma_laid_out, lemma_laid_out_in_two, merged, placed, rows_fit, spans,
    with_char_inserted, with_char_removed, without_range, Rows,
};
use crate::model::EditorView;
use crate::position::{lemma_first_precedes_second, Pos};
use crate::words::{
    jump_backward_col, jump_forward_col, lemma_jump_backward_bounds, lemma_jump_forward_bounds,
    JumpMode,
};

verus! {

/// No row holds a line feed or a carriage return.
pub open spec fn free_of_line_breaks(rows: Rows) -> bool {
    forall|i: int, j: int|
        0 <= i < rows.len() && 0 <= j < rows[i].len() ==> !is_line_break(#[trigger] rows[i][j])
}

/// Home is idempotent: pressed twice, it leaves the state that it leaves when
/// pressed once, whatever modifiers are held.
pub proof fn lemma_home_is_idempotent(state: EditorView, modifiers: InputModifiers)
    ensures
        state.after_key(InputKey::Home, modifiers).after_key(InputKey::Home, modifiers)
            == state.after_key(InputKey::Home, modifiers),
{
}

/// End is idempotent: pressed twice, it leaves the state that it leaves when
/// pressed once, whatever modifiers are held.
pub proof fn lemma_end_is_idempotent(state: EditorView, modifiers: InputModifiers)
    ensures
        state.after_key(InputKey::End, modifiers).after_key(InputKey::End, modifiers)
            == state.after_key(InputKey::End, modifiers),
{
}

/// Characters without a line break that still fit into row `row` all go to
/// the end of that row.
pub proof fn lemma_laid_out_in_row(rows: Rows, row: int, line: Seq<char>, max: int)
    requires
        0 <= row < rows.len(),
        rows[row].len() + line.len() <= max,
        forall|j: int| 0 <= j < line.len() ==> !is_line_break(#[trigger] line[j]),
    ensures
        laid_out(rows, row, line, max) == (rows.update(row, rows[row] + line), row),
    decreases line.len(),
{
    if line.len() == 0 {
        assert(rows.update(row, rows[row] + line) =~= rows);
    } else {
        let (next_rows, next_row) = placed(rows, row, line[0], max);
        assert(!is_line_break(line[0]));
        assert(next_rows == rows.update(row, rows[row].push(line[0])));
        assert forall|j: int| 0 <= j < line.drop_first().len() implies !is_line_break(
            #[trigger] line.drop_first()[j],
        ) by {
            assert(line.drop_first()[j] == line[j + 1]);
        }
        lemma_laid_out_in_row(next_rows, row, line.drop_first(), max);
        assert(rows[row].push(line[0]) + line.drop_first() =~= rows[row] + line);
        assert(next_rows.update(row, next_rows[row] + line.drop_first()) =~= rows.update(
            row,
            rows[row] + line,
        ));
    }
}

/// The content of rows that fit the capacity can be laid out in rows of
/// that capacity.
pub proof fn lemma_joined_can_be_laid_out(rows: Rows, max: int)
    requires
        rows_fit(rows, max),
    ensures
        can_lay_out(joined(rows), max),
    decreases rows.len(),
{
    if rows.len() > 0 && max <= 0 {
        lemma_joined_can_be_laid_out(rows.drop_last(), max);
        assert(rows.last() =~= Seq::<char>::empty());
        let text = joined(rows);
        assert(text == joined(rows.drop_last()) + rows.last().push('\n'));
        assert forall|i: int| 0 <= i < text.len() implies is_line_break(#[trigger] text[i]) by {
            if i < joined(rows.drop_last()).len() {
                assert(text[i] == joined(rows.drop_last())[i]);
            }
        }
    }
}

/// The content of rows without line breaks, laid out from an empty row,
/// gives the same rows again, and one empty row for the last line feed.
pub proof fn lemma_joined_laid_out(rows: Rows, max: int)
    requires
        rows_fit(rows, max),
        free_of_line_breaks(rows),
    ensures
        laid_out(seq![Seq::<char>::empty()], 0, joined(rows), max) == (
            rows.push(Seq::empty()),
            rows.len() as int,
        ),
    decreases rows.len(),
{
    let start: Rows = seq![Seq::<char>::empty()];
    if rows.len() == 0 {
        assert(rows.push(Seq::empty()) =~= start);
    } else {
        let front = rows.drop_last();
        let line = rows.last();
        assert forall|i: int, j: int| 0 <= i < front.len() && 0 <= j < front[i].len()
            implies !is_line_break(#[trigger] front[i][j]) by {
            assert(front[i][j] == rows[i][j]);
        }
        lemma_joined_laid_out(front, max);
        lemma_laid_out_in_two(start, 0, joined(front), line.push('\n'), max);
        let mid: Rows = front.push(Seq::empty());
        let row = front.len() as int;
        assert(mid[row].len() + line.len() <= max);
        lemma_laid_out_in_two(mid, row, line, seq!['\n'], max);
        assert(line + seq!['\n'] =~= line.push('\n'));
        lemma_laid_out_in_row(mid, row, line, max);
        let filled = mid.update(row, mid[row] + line);
        assert(seq!['\n'].drop_first() =~= Seq::<char>::empty());
        assert(laid_out(filled, row, seq!['\n'], max) == placed(filled, row, '\n', max)) by {
            let (next_rows, next_row) = placed(filled, row, '\n', max);
            assert(laid_out(next_rows, next_row, Seq::<char>::empty(), max) == (
                next_rows,
                next_row,
            ));
        }
        assert(filled.insert(row + 1, Seq::empty()) =~= rows.push(Seq::empty()));
    }
}

/// Content round trip: the content of an editor, set as the content of a
/// fresh editor of the same capacity, can be laid out there and gives the
/// same rows again, followed by one empty row for the line feed that ends the
/// content. This holds of text whose rows hold neither a line feed nor a
/// carriage return.
pub proof fn lemma_content_round_trip(source: EditorView)
    requires
        source.rows_fit(),
        free_of_line_breaks(source.rows),
    ensures
        can_lay_out(joined(source.rows), source.max_line_len as int),
        EditorView::fresh(source.max_line_len).with_content(joined(source.rows)).rows
            == source.rows.push(Seq::empty()),
{
    let max = source.max_line_len as int;
    let fresh = EditorView::fresh(source.max_line_len);
    let cleared = all_cleared(fresh.rows);
    assert(cleared[0].take(0) =~= Seq::<char>::empty());
    assert(cleared.update(0, cleared[0].take(0)) =~= seq![Seq::<char>::empty()]);
    lemma_joined_can_be_laid_out(source.rows, max);
    lemma_joined_laid_out(source.rows, max);
}

/// Taking a range out of rows that fit leaves rows that fit, and the first
/// edge of the range is a place of what is left.
pub proof fn lemma_without_range_fits(rows: Rows, first: Pos, second: Pos, max: int)
    requires
        rows_fit(rows, max),
        spans(rows, first, second),
        can_remove_range(rows, first, second, max),
    ensures
        rows_fit(without_range(rows, first, second), max),
        holds(without_range(rows, first, second), first),
        without_range(rows, first, second).len() == rows.len() - (second.row - first.row),
{
    let left = without_range(rows, first, second);
    assert forall|i: int| 0 <= i < left.len() implies (#[trigger] left[i]).len() <= max by {
        if i < first.row {
            assert(left[i] == rows[i]);
        } else if i > first.row {
            assert(left[i] == rows[i + (second.row - first.row)]);
        }
    }
}

/// A move of the cursor keeps a well-formed state well-formed, if the rows
/// can be counted by a `usize`.
pub proof fn lemma_moves_keep_well_formed(state: EditorView, modifiers: InputModifiers)
    requires
        state.well_formed(),
        state.rows.len() <= usize::MAX,
    ensures
        state.after_home(modifiers).well_formed(),
        state.after_end(modifiers).well_formed(),
        state.after_right(modifiers).well_formed(),
        state.after_left(modifiers).well_formed(),
        state.after_up(modifiers).well_formed(),
        state.after_down(modifiers).well_formed(),
{
    let cur = state.cursor();
    lemma_first_precedes_second(state.selection);
    lemma_jump_forward_bounds(state.cursor_line(), cur.column as int, JumpMode::IgnoreWhitespaces);
    lemma_jump_backward_bounds(
        state.cursor_line(),
        cur.column as int,
        JumpMode::IgnoreWhitespaces,
    );
}

/// Taking the selected range out keeps a well-formed state well-formed.
pub proof fn lemma_selected_removed_keeps_well_formed(state: EditorView)
    requires
        state.well_formed(),
        state.can_remove_selected(),
    ensures
        state.selected_removed().well_formed(),
        !state.selected_removed().selection.is_range(),
        state.selected_removed().rows.len() <= state.rows.len(),
{
    lemma_first_precedes_second(state.selection);
    lemma_without_range_fits(
        state.rows,
        state.selection.first(),
        state.selection.second(),
        state.max_line_len as int,
    );
}

/// Delete keeps a well-formed state well-formed.
pub proof fn lemma_del_keeps_well_formed(state: EditorView, modifiers: InputModifiers)
    requires
        state.well_formed(),
    ensures
        state.after_del(modifiers).well_formed(),
{
    let max = state.max_line_len as int;
    let cur = state.cursor();
    if state.selection.is_range() {
        if state.can_remove_selected() {
            lemma_selected_removed_keeps_well_formed(state);
        }
    } else if cur.column == state.cursor_line().len() {
        if cur.row + 1 < state.rows.len() && can_merge(state.rows, cur.row as int, max) {
            let joined_rows = merged(state.rows, cur.row as int, cur.column as int, 0);
            assert(state.cursor_line().take(cur.column as int) =~= state.cursor_line());
            assert forall|i: int| 0 <= i < joined_rows.len() implies (#[trigger] joined_rows[i]).len()
                <= max by {
                if i < cur.row {
                    assert(joined_rows[i] == state.rows[i]);
                } else if i > cur.row {
                    assert(joined_rows[i] == state.rows[i + 1]);
                }
            }
        }
    } else if modifiers.ctrl {
        lemma_jump_forward_bounds(
            state.cursor_line(),
            cur.column as int,
            JumpMode::ConsiderWhitespaces,
        );
        let until = Pos {
            row: cur.row,
            column: jump_forward_col(
                state.cursor_line(),
                cur.column as int,
                JumpMode::ConsiderWhitespaces,
            ) as usize,
        };
        lemma_without_range_fits(state.rows, cur, until, max);
    } else {
        let left = with_char_removed(state.rows, cur.row as int, cur.column as int);
        assert forall|i: int| 0 <= i < left.len() implies (#[trigger] left[i]).len() <= max by {
            if i != cur.row {
                assert(left[i] == state.rows[i]);
            }
        }
    }
}

/// Backspace keeps a well-formed state well-formed.
pub proof fn lemma_backspace_keeps_well_formed(state: EditorView, modifiers: InputModifiers)
    requires
        state.well_formed(),
    ensures
        state.after_backspace(modifiers).well_formed(),
{
    let max = state.max_line_len as int;
    let cur = state.cursor();
    if state.selection.is_range() {
        if state.can_remove_selected() {
            lemma_selected_removed_keeps_well_formed(state);
        }
    } else if cur.column == 0 {
        if cur.row > 0 && can_merge(state.rows, cur.row - 1, max) {
            let above = state.rows[cur.row - 1];
            let joined_rows = merged(state.rows, cur.row - 1, above.len() as int, 0);
            assert(above.take(above.len() as int) =~= above);
            assert forall|i: int| 0 <= i < joined_rows.len() implies (#[trigger] joined_rows[i]).len()
                <= max by {
                if i < cur.row - 1 {
                    assert(joined_rows[i] == state.rows[i]);
                } else if i > cur.row - 1 {
                    assert(joined_rows[i] == state.rows[i + 1]);
                }
            }
        }
    } else if modifiers.ctrl {
        lemma_jump_backward_bounds(
            state.cursor_line(),
            cur.column as int,
            JumpMode::IgnoreWhitespaces,
        );
        let from = Pos {
            row: cur.row,
            column: jump_backward_col(
                state.cursor_line(),
                cur.column as int,
                JumpMode::IgnoreWhitespaces,
            ) as usize,
        };
        lemma_without_range_fits(state.rows, from, cur, max);
    } else {
        let left = with_char_removed(state.rows, cur.row as int, cur.column - 1);
        assert forall|i: int| 0 <= i < left.len() implies (#[trigger] left[i]).len() <= max by {
            if i != cur.row {
                assert(left[i] == state.rows[i]);
            }
        }
    }
}

/// Cutting the row at the caret keeps a well-formed state well-formed, as
/// long as the rows can still be counted by a `usize`.
pub proof fn lemma_broken_at_caret_keeps_well_formed(state: EditorView)
    requires
        state.well_formed(),
        !state.selection.is_range(),
        state.rows.len() < usize::MAX,
    ensures
        state.broken_at_caret().well_formed(),
{
    let max = state.max_line_len as int;
    let cur = state.cursor();
    let cut = cut_at(state.rows, cur.row as int, cur.column as int);
    assert forall|i: int| 0 <= i < cut.len() implies (#[trigger] cut[i]).len() <= max by {
        if i < cur.row {
            assert(cut[i] == state.rows[i]);
        } else if i > cur.row + 1 {
            assert(cut[i] == state.rows[i - 1]);
        }
    }
}

/// Enter keeps a well-formed state well-formed, as long as the rows that it
/// leaves can still be counted by a `usize`.
pub proof fn lemma_enter_keeps_well_formed(state: EditorView)
    requires
        state.well_formed(),
        state.after_enter().rows.len() <= usize::MAX,
    ensures
        state.after_enter().well_formed(),
{
    if state.selection.is_range() {
        if state.can_remove_selected() {
            lemma_selected_removed_keeps_well_formed(state);
            let removed = state.selected_removed();
            assert(removed.broken_at_caret().rows.len() == removed.rows.len() + 1);
            lemma_broken_at_caret_keeps_well_formed(removed);
        }
    } else {
        assert(state.broken_at_caret().rows.len() == state.rows.len() + 1);
        lemma_broken_at_caret_keeps_well_formed(state);
    }
}

/// Typing at the caret keeps a well-formed state well-formed.
pub proof fn lemma_typed_at_caret_keeps_well_formed(state: EditorView, ch: char)
    requires
        state.well_formed(),
        !state.selection.is_range(),
    ensures
        state.typed_at_caret(ch).well_formed(),
{
    let max = state.max_line_len as int;
    let cur = state.cursor();
    if state.cursor_line().len() < state.max_line_len {
        let more = with_char_inserted(state.rows, cur.row as int, cur.column as int, ch);
        assert forall|i: int| 0 <= i < more.len() implies (#[trigger] more[i]).len() <= max by {
            if i != cur.row {
                assert(more[i] == state.rows[i]);
            }
        }
    }
}

/// A character key keeps a well-formed state well-formed.
pub proof fn lemma_char_keeps_well_formed(state: EditorView, ch: char, modifiers: InputModifiers)
    requires
        state.well_formed(),
    ensures
        state.after_char(ch, modifiers).well_formed(),
{
    if ch == 'e' && modifiers.ctrl {
        let mode = if state.selection.is_range() {
            JumpMode::IgnoreWhitespaces
        } else {
            JumpMode::BlockOnWhitespace
        };
        let first = state.selection.first();
        let second = state.selection.second();
        lemma_first_precedes_second(state.selection);
        lemma_jump_backward_bounds(state.rows[first.row as int], first.column as int, mode);
        lemma_jump_forward_bounds(state.rows[second.row as int], second.column as int, mode);
    } else if state.selection.is_range() {
        if state.can_remove_selected() {
            lemma_selected_removed_keeps_well_formed(state);
            lemma_typed_at_caret_keeps_well_formed(state.selected_removed(), ch);
        }
    } else {
        lemma_typed_at_caret_keeps_well_formed(state, ch);
    }
}

/// Inserted text keeps a well-formed state well-formed, as long as the rows
/// can still be counted by a `usize`.
pub proof fn lemma_text_keeps_well_formed(state: EditorView, text: Seq<char>)
    requires
        state.well_formed(),
        can_lay_out(text, state.max_line_len as int),
        state.after_text(text).rows.len() <= usize::MAX,
    ensures
        state.after_text(text).well_formed(),
{
    let max = state.max_line_len as int;
    let cur = state.cursor();
    let line = state.cursor_line();
    let cut = state.rows.update(cur.row as int, line.take(cur.column as int));
    let rest = line.skip(cur.column as int);
    assert forall|i: int| 0 <= i < cut.len() implies (#[trigger] cut[i]).len() <= max by {
        if i != cur.row {
            assert(cut[i] == state.rows[i]);
        }
    }
    assert(can_lay_out(rest, max)) by {
        if max <= 0 {
            assert(rest.len() == 0);
        }
    }
    lemma_laid_out(cut, cur.row as int, text, max);
    let (rows, row) = laid_out(cut, cur.row as int, text, max);
    lemma_laid_out(rows, row, rest, max);
}

/// Every key leaves a well-formed state well-formed: the rows stay within
/// the capacity and the selection stays inside the text. The rows that the
/// key finds and the rows that it leaves must be countable by a `usize`.
pub proof fn lemma_keys_keep_well_formed(
    state: EditorView,
    key: InputKey,
    modifiers: InputModifiers,
)
    requires
        state.well_formed(),
        key matches InputKey::Text(text) ==> can_lay_out(text@, state.max_line_len as int),
        state.rows.len() <= usize::MAX,
        state.after_key(key, modifiers).rows.len() <= usize::MAX,
    ensures
        state.after_key(key, modifiers).well_formed(),
{
    match key {
        InputKey::Home | InputKey::End | InputKey::Right | InputKey::Left | InputKey::Up
        | InputKey::Down => {
            lemma_moves_keep_well_formed(state, modifiers);
        },
        InputKey::Del => {
            lemma_del_keeps_well_formed(state, modifiers);
        },
        InputKey::Backspace => {
            lemma_backspace_keeps_well_formed(state, modifiers);
        },
        InputKey::Enter => {
            lemma_enter_keeps_well_formed(state);
        },
        InputKey::Char(ch) => {
            lemma_char_keeps_well_formed(state, ch, modifiers);
        },
        InputKey::Text(text) => {
            lemma_text_keeps_well_formed(state, text@);
        },
    }
}

} // verus!

//! The editor: rows of text, a selection, and the operations on them.

use vstd::prelude::*;
use crate::input::{InputKey, InputModifiers};
use crate::lines::{
    all_cleared, can_lay_out, can_merge, can_remove_range, holds, is_line_break, joined,
    laid_out, lemma_laid_out, lemma_placed, merged, padded_to, placed, row_views, rows_fit,
    spans, cut_at, text_between, text_inserted, with_char_inserted, with_char_removed,
    with_char_set, without_range,
};
use crate::model::{EditorView, BLINK_INTERVAL_MS};
use crate::position::{lemma_first_precedes_second, Pos, Selection, SelectionView};
use crate::words::{jump_backward, jump_backward_col, jump_forward, jump_forward_col, JumpMode};

verus! {

/// A hint for incremental redraw: no row in front of this index changed.
pub struct FirstModifiedRowIndex(usize);

impl View for FirstModifiedRowIndex {
    type V = usize;

    closed spec fn view(&self) -> usize {
        self.0
    }
}

impl FirstModifiedRowIndex {
    /// The row index.
    pub fn get(&self) -> (row: usize)
        ensures
            row == self@,
    {
        self.0
    }
}

/// A multi-line text buffer of fixed row capacity with one selection.
pub struct Editor {
    selection: Selection,
    last_column_index: usize,
    next_blink_at: u32,
    pub show_cursor: bool,
    max_line_len: usize,
    rows: Vec<Vec<char>>,
}

impl View for Editor {
    type V = EditorView;

    closed spec fn view(&self) -> EditorView {
        EditorView {
            rows: row_views(self.rows),
            selection: self.selection@,
            sticky_column: self.last_column_index,
            max_line_len: self.max_line_len,
            next_blink_at: self.next_blink_at,
            show_cursor: self.show_cursor,
        }
    }
}

/// The line store: rows and the operations on single rows.
impl Editor {
    /// An editor whose rows hold up to `max_len` code points each: one empty
    /// row, and the caret at its start.
    pub fn new(max_len: usize) -> (ed: Editor)
        ensures
            ed@ == EditorView::fresh(max_len),
            ed@.well_formed(),
    {
        let mut ed = Editor {
            rows: Vec::new(),
            max_line_len: max_len,
            selection: Selection::single(0, 0),
            last_column_index: 0,
            next_blink_at: 0,
            show_cursor: false,
        };
        ed.push_line();
        assert(ed@.rows =~= seq![Seq::<char>::empty()]);
        ed
    }

    /// Appends an empty row.
    pub fn push_line(&mut self)
        ensures
            final(self)@ == old(self)@.with_rows(old(self)@.rows.push(Seq::empty())),
            old(self)@.rows_fit() ==> final(self)@.rows_fit(),
    {
        self.rows.push(Vec::new());
        assert(row_views(self.rows) =~= row_views(old(self).rows).push(Seq::empty()));
    }

    /// Inserts an empty row in front of row `at`.
    pub fn insert_line_at(&mut self, at: usize)
        requires
            at <= old(self)@.rows.len(),
        ensures
            final(self)@ == old(self)@.with_rows(old(self)@.rows.insert(at as int, Seq::empty())),
            old(self)@.rows_fit() ==> final(self)@.rows_fit(),
    {
        self.rows.insert(at, Vec::new());
        assert(row_views(self.rows) =~= row_views(old(self).rows).insert(at as int, Seq::empty()));
    }

    /// Removes row `at`.
    pub fn remove_line_at(&mut self, at: usize)
        requires
            at < old(self)@.rows.len(),
        ensures
            final(self)@ == old(self)@.with_rows(old(self)@.rows.remove(at as int)),
            old(self)@.rows_fit() ==> final(self)@.rows_fit(),
    {
        self.rows.remove(at);
        assert(row_views(self.rows) =~= row_views(old(self).rows).remove(at as int));
    }

    /// The number of rows.
    pub fn line_count(&self) -> (count: usize)
        ensures
            count == self@.rows.len(),
    {
        self.rows.len()
    }

    /// The length of row `row_i`, in code points.
    pub fn line_len(&self, row_i: usize) -> (len: usize)
        requires
            row_i < self@.rows.len(),
        ensures
            len == self@.rows[row_i as int].len(),
            self@.rows_fit() ==> len <= self@.max_line_len,
    {
        self.rows[row_i].len()
    }

    /// The capacity of every row.
    pub fn max_line_len(&self) -> (max: usize)
        ensures
            max == self@.max_line_len,
    {
        self.max_line_len
    }

    /// The characters of row `row_index`.
    pub fn get_line_chars(&self, row_index: usize) -> (chars: &[char])
        requires
            row_index < self@.rows.len(),
        ensures
            chars@ == self@.rows[row_index as int],
    {
        self.rows[row_index].as_slice()
    }

    /// The rows of the text, each as long as its content.
    pub fn lines(&self) -> (rows: &Vec<Vec<char>>)
        ensures
            row_views(*rows) == self@.rows,
    {
        &self.rows
    }

    /// The character at column `column_index` of row `row_index`.
    pub fn get_char(&mut self, row_index: usize, column_index: usize) -> (ch: char)
        requires
            row_index < old(self)@.rows.len(),
            column_index < old(self)@.rows[row_index as int].len(),
        ensures
            ch == old(self)@.rows[row_index as int][column_index as int],
            *final(self) == *old(self),
    {
        self.rows[row_index][column_index]
    }

    /// Overwrites the cell at `column_index` of row `row_index`, appending
    /// empty rows first if the row does not exist yet. Row lengths stay as
    /// they are, so a cell behind the end of its row stays outside the text.
    pub fn set_char(&mut self, row_index: usize, column_index: usize, ch: char)
        requires
            column_index < old(self)@.max_line_len,
        ensures
            final(self)@ == old(self)@.with_rows(
                with_char_set(old(self)@.rows, row_index as int, column_index as int, ch),
            ),
            old(self)@.rows_fit() ==> final(self)@.rows_fit(),
    {
        let ghost initial = row_views(self.rows);
        while self.rows.len() <= row_index
            invariant
                initial == row_views(old(self).rows),
                row_views(self.rows) == padded_to(initial, self.rows.len() as int),
                self.rows.len() >= initial.len(),
                self.rows.len() == initial.len() || self.rows.len() <= row_index + 1,
                self@ == old(self)@.with_rows(self@.rows),
            decreases row_index + 1 - self.rows.len(),
        {
            let ghost before = row_views(self.rows);
            self.rows.push(Vec::new());
            proof {
                assert(row_views(self.rows) =~= before.push(Seq::empty()));
                assert(before.push(Seq::empty()) =~= padded_to(initial, self.rows.len() as int));
            }
        }
        let ghost padded = row_views(self.rows);
        assert(padded == padded_to(initial, row_index + 1));
        if column_index < self.rows[row_index].len() {
            self.rows[row_index][column_index] = ch;
            assert(row_views(self.rows) =~= padded.update(
                row_index as int,
                padded[row_index as int].update(column_index as int, ch),
            ));
        }
    }

    /// Inserts `ch` in front of column `column_index`, unless the row is full.
    pub fn insert_char(&mut self, row_index: usize, column_index: usize, ch: char) -> (ok: bool)
        requires
            old(self)@.rows_fit(),
            row_index < old(self)@.rows.len(),
            column_index <= old(self)@.rows[row_index as int].len(),
        ensures
            ok == (old(self)@.rows[row_index as int].len() < old(self)@.max_line_len),
            ok ==> final(self)@ == old(self)@.with_rows(
                with_char_inserted(old(self)@.rows, row_index as int, column_index as int, ch),
            ),
            !ok ==> *final(self) == *old(self),
            final(self)@.rows_fit(),
    {
        if self.rows[row_index].len() == self.max_line_len {
            return false;
        }
        self.rows[row_index].insert(column_index, ch);
        assert(row_views(self.rows) =~= with_char_inserted(
            row_views(old(self).rows),
            row_index as int,
            column_index as int,
            ch,
        ));
        true
    }

    /// Removes the character at column `column_index`.
    pub fn remove_char(&mut self, row_index: usize, column_index: usize) -> (ok: bool)
        requires
            row_index < old(self)@.rows.len(),
            column_index < old(self)@.rows[row_index as int].len(),
        ensures
            ok,
            final(self)@ == old(self)@.with_rows(
                with_char_removed(old(self)@.rows, row_index as int, column_index as int),
            ),
            old(self)@.rows_fit() ==> final(self)@.rows_fit(),
    {
        self.rows[row_index].remove(column_index);
        assert(row_views(self.rows) =~= with_char_removed(
            row_views(old(self).rows),
            row_index as int,
            column_index as int,
        ));
        true
    }

    /// Cuts row `row_index` at column `split_at`: what stood at and behind
    /// the column becomes a new row right below.
    pub fn split_line(&mut self, row_index: usize, split_at: usize)
        requires
            row_index < old(self)@.rows.len(),
            split_at <= old(self)@.rows[row_index as int].len(),
        ensures
            final(self)@ == old(self)@.with_rows(
                cut_at(old(self)@.rows, row_index as int, split_at as int),
            ),
            old(self)@.rows_fit() ==> final(self)@.rows_fit(),
    {
        assert(row_index < self.rows.len());
        let moved: Vec<char> = self.rows[row_index].split_off(split_at);
        self.rows.insert(row_index + 1, moved);
        assert(row_views(self.rows) =~= cut_at(
            row_views(old(self).rows),
            row_index as int,
            split_at as int,
        ));
    }

    /// Joins row `row_index`, kept up to `first_row_col`, with the row below
    /// it, kept from `second_row_col` on, and removes the row below. Nothing
    /// happens unless the two rows, as long as they are, fit into one.
    pub fn merge_with_next_row(
        &mut self,
        row_index: usize,
        first_row_col: usize,
        second_row_col: usize,
    ) -> (ok: bool)
        requires
            old(self)@.rows_fit(),
            row_index + 1 < old(self)@.rows.len(),
            first_row_col <= old(self)@.rows[row_index as int].len(),
            second_row_col <= old(self)@.rows[row_index + 1].len(),
        ensures
            ok == can_merge(old(self)@.rows, row_index as int, old(self)@.max_line_len as int),
            ok ==> final(self)@ == old(self)@.with_rows(
                merged(
                    old(self)@.rows,
                    row_index as int,
                    first_row_col as int,
                    second_row_col as int,
                ),
            ),
            !ok ==> *final(self) == *old(self),
            final(self)@.rows_fit(),
    {
        assert(row_index + 1 < self.rows.len());
        if self.rows[row_index + 1].len() > self.max_line_len - self.rows[row_index].len() {
            return false;
        }
        let mut below: Vec<char> = self.rows.remove(row_index + 1);
        let mut kept: Vec<char> = below.split_off(second_row_col);
        self.rows[row_index].truncate(first_row_col);
        self.rows[row_index].append(&mut kept);
        assert(row_views(self.rows) =~= merged(
            row_views(old(self).rows),
            row_index as int,
            first_row_col as int,
            second_row_col as int,
        ));
        true
    }

    /// Takes the text between `first` and `second` out of the rows. Across
    /// rows, nothing happens unless the rows of the two edges, as long as they
    /// are, fit into one.
    pub fn remove_selection(&mut self, first: Pos, second: Pos) -> (ok: bool)
        requires
            old(self)@.rows_fit(),
            spans(old(self)@.rows, first, second),
        ensures
            ok == can_remove_range(old(self)@.rows, first, second, old(self)@.max_line_len as int),
            ok ==> final(self)@ == old(self)@.with_rows(
                without_range(old(self)@.rows, first, second),
            ),
            !ok ==> *final(self) == *old(self),
            final(self)@.rows_fit(),
    {
        let ghost before = row_views(self.rows);
        if second.row > first.row {
            if self.rows[second.row].len() > self.max_line_len - self.rows[first.row].len() {
                return false;
            }
            let mut row: usize = first.row + 1;
            while row < second.row
                invariant
                    first.row < row <= second.row < before.len(),
                    before == row_views(old(self).rows),
                    row_views(self.rows) == before.take(first.row + 1) + before.skip(row as int),
                    self@ == old(self)@.with_rows(self@.rows),
                decreases second.row - row,
            {
                let ghost current = row_views(self.rows);
                assert(current.len() == first.row + 1 + (before.len() - row));
                self.rows.remove(first.row + 1);
                row = row + 1;
                assert(row_views(self.rows) =~= current.remove(first.row + 1));
                assert(current.remove(first.row + 1) =~= before.take(first.row + 1) + before.skip(
                    row as int,
                ));
            }
            let ghost closed_up = row_views(self.rows);
            assert(closed_up[first.row as int] == before[first.row as int]);
            assert(closed_up[first.row + 1] == before[second.row as int]);
            assert forall|i: int| 0 <= i < closed_up.len() implies (#[trigger] closed_up[i]).len()
                <= self.max_line_len by {
                if i > first.row {
                    assert(closed_up[i] == before[i + (second.row - first.row - 1)]);
                } else {
                    assert(closed_up[i] == before[i]);
                }
            }
            let ok = self.merge_with_next_row(first.row, first.column, second.column);
            assert(merged(closed_up, first.row as int, first.column as int, second.column as int)
                =~= without_range(before, first, second));
            ok
        } else {
            let mut kept: Vec<char> = self.rows[first.row].split_off(second.column);
            self.rows[first.row].truncate(first.column);
            self.rows[first.row].append(&mut kept);
            proof {
                let line = before[first.row as int];
                let shortened = line.take(first.column as int) + line.skip(second.column as int);
                assert(self.rows[first.row as int]@ =~= shortened);
                assert(row_views(self.rows) =~= before.update(first.row as int, shortened));
                assert(before.update(first.row as int, shortened) =~= without_range(
                    before,
                    first,
                    second,
                ));
            }
            true
        }
    }

    /// Empties every row and removes none. The selection stays as it is.
    pub fn clear(&mut self)
        ensures
            final(self)@ == old(self)@.with_rows(all_cleared(old(self)@.rows)),
            final(self)@.rows_fit(),
    {
        let mut row: usize = 0;
        while row < self.rows.len()
            invariant
                row <= self.rows.len(),
                self.rows.len() == old(self).rows.len(),
                forall|i: int| 0 <= i < row ==> (#[trigger] self.rows[i])@ == Seq::<char>::empty(),
                self@ == old(self)@.with_rows(self@.rows),
            decreases self.rows.len() - row,
        {
            self.rows[row].clear();
            row = row + 1;
        }
        assert(row_views(self.rows) =~= all_cleared(row_views(old(self).rows)));
    }
}

/// Text in bulk: laying text out in rows and reading it back.
impl Editor {
    /// Replaces what stands at and behind column `insert_at` of row
    /// `row_index` by `text`, laid out row by row, and returns the position
    /// behind the text's last character.
    pub fn insert_at(&mut self, text: &str, row_index: usize, insert_at: usize) -> (end: Pos)
        requires
            old(self)@.rows_fit(),
            row_index < old(self)@.rows.len(),
            insert_at <= old(self)@.rows[row_index as int].len(),
            can_lay_out(text@, old(self)@.max_line_len as int),
        ensures
            (final(self)@.rows, end.row as int) == text_inserted(
                old(self)@.rows,
                row_index as int,
                insert_at as int,
                text@,
                old(self)@.max_line_len as int,
            ),
            end.row < final(self)@.rows.len(),
            end.column == final(self)@.rows[end.row as int].len(),
            final(self)@ == old(self)@.with_rows(final(self)@.rows),
            final(self)@.rows_fit(),
    {
        let ghost max = self.max_line_len as int;
        let ghost before = row_views(self.rows);
        self.rows[row_index].truncate(insert_at);
        assert(row_views(self.rows) =~= before.update(
            row_index as int,
            before[row_index as int].take(insert_at as int),
        ));
        let ghost goal = text_inserted(before, row_index as int, insert_at as int, text@, max);
        let mut row: usize = row_index;
        assert(text@.skip(0) =~= text@);
        for ch in rest: text.chars()
            invariant
                rest.seq() == text@,
                max == self.max_line_len,
                can_lay_out(text@, max),
                row < self.rows.len(),
                rows_fit(row_views(self.rows), max),
                laid_out(row_views(self.rows), row as int, text@.skip(rest.index() as int), max)
                    == goal,
                self@ == old(self)@.with_rows(self@.rows),
        {
            assert(text@.skip(rest.index() as int).drop_first() =~= text@.skip(rest.index() + 1));
            row = self.put_char(row, ch);
        }
        assert(text@.skip(text@.len() as int) =~= Seq::<char>::empty());
        Pos::from_row_column(row, self.rows[row].len())
    }

    /// Lays one character out behind the end of row `row` and returns the
    /// row that the next character meets.
    fn put_char(&mut self, row: usize, ch: char) -> (next_row: usize)
        requires
            old(self)@.rows_fit(),
            row < old(self)@.rows.len(),
            old(self)@.max_line_len > 0 || is_line_break(ch),
        ensures
            (final(self)@.rows, next_row as int) == placed(
                old(self)@.rows,
                row as int,
                ch,
                old(self)@.max_line_len as int,
            ),
            final(self)@ == old(self)@.with_rows(final(self)@.rows),
            final(self)@.rows_fit(),
            next_row < final(self)@.rows.len(),
    {
        proof {
            lemma_placed(row_views(self.rows), row as int, ch, self.max_line_len as int);
            assert(row < self.rows.len());
        }
        if ch == '\r' {
            row
        } else if ch == '\n' {
            self.rows.insert(row + 1, Vec::new());
            assert(row_views(self.rows) =~= row_views(old(self).rows).insert(
                row + 1,
                Seq::empty(),
            ));
            row + 1
        } else if self.rows[row].len() >= self.max_line_len {
            let mut opened: Vec<char> = Vec::new();
            opened.push(ch);
            self.rows.insert(row + 1, opened);
            assert(row_views(self.rows) =~= row_views(old(self).rows).insert(row + 1, seq![ch]));
            row + 1
        } else {
            self.rows[row].push(ch);
            assert(row_views(self.rows) =~= row_views(old(self).rows).update(
                row as int,
                row_views(old(self).rows)[row as int].push(ch),
            ));
            row
        }
    }

    /// Lays `chars` out behind the end of row `row_index` and returns the
    /// row in which they end.
    fn put_chars(&mut self, chars: &Vec<char>, row_index: usize) -> (last_row: usize)
        requires
            old(self)@.rows_fit(),
            row_index < old(self)@.rows.len(),
            can_lay_out(chars@, old(self)@.max_line_len as int),
        ensures
            (final(self)@.rows, last_row as int) == laid_out(
                old(self)@.rows,
                row_index as int,
                chars@,
                old(self)@.max_line_len as int,
            ),
            final(self)@ == old(self)@.with_rows(final(self)@.rows),
            final(self)@.rows_fit(),
            last_row < final(self)@.rows.len(),
    {
        let ghost max = self.max_line_len as int;
        let ghost goal = laid_out(row_views(self.rows), row_index as int, chars@, max);
        let mut row: usize = row_index;
        let mut i: usize = 0;
        assert(chars@.skip(0) =~= chars@);
        while i < chars.len()
            invariant
                i <= chars.len(),
                max == self.max_line_len,
                can_lay_out(chars@, max),
                row < self.rows.len(),
                rows_fit(row_views(self.rows), max),
                laid_out(row_views(self.rows), row as int, chars@.skip(i as int), max) == goal,
                self@ == old(self)@.with_rows(self@.rows),
            decreases chars.len() - i,
        {
            assert(chars@.skip(i as int).drop_first() =~= chars@.skip(i + 1));
            row = self.put_char(row, chars[i]);
            i = i + 1;
        }
        row
    }

    /// Replaces the text: every row is emptied, the caret goes to the start
    /// of the first row, and `text` is laid out from there.
    pub fn set_content(&mut self, text: &str)
        requires
            old(self)@.rows.len() > 0,
            can_lay_out(text@, old(self)@.max_line_len as int),
        ensures
            final(self)@ == old(self)@.with_content(text@),
            final(self)@.well_formed(),
    {
        self.clear();
        self.set_cursor_pos(0, 0);
        self.insert_at(text, 0, 0);
        proof {
            let cleared = all_cleared(old(self)@.rows);
            lemma_laid_out(
                cleared.update(0, cleared[0].take(0)),
                0,
                text@,
                old(self)@.max_line_len as int,
            );
        }
    }

    /// The whole text: every row followed by a line feed, the last one too.
    pub fn get_content(&self) -> (content: String)
        ensures
            content@ == joined(self@.rows),
    {
        let mut result = String::new();
        let mut row: usize = 0;
        assert(row_views(self.rows).take(0) =~= Seq::<Seq<char>>::empty());
        while row < self.rows.len()
            invariant
                row <= self.rows.len(),
                result@ == joined(row_views(self.rows).take(row as int)),
            decreases self.rows.len() - row,
        {
            let len: usize = self.rows[row].len();
            push_chars(&mut result, self.rows[row].as_slice(), 0, len);
            result.push('\n');
            proof {
                let shown = row_views(self.rows).take(row + 1);
                assert(shown.drop_last() =~= row_views(self.rows).take(row as int));
                assert(shown.last() =~= self.rows[row as int]@.subrange(0, len as int));
            }
            row = row + 1;
        }
        assert(row_views(self.rows).take(row as int) =~= row_views(self.rows));
        result
    }

    /// The selected text, rows separated by a line feed; `None` for a caret.
    pub fn get_selected_text(&self) -> (text: Option<String>)
        requires
            holds(self@.rows, self@.selection.anchor),
            self@.selection.end matches Some(end) ==> holds(self@.rows, end),
        ensures
            text is Some == self@.selection.is_range(),
            text matches Some(selected) ==> selected@ == text_between(
                self@.rows,
                self@.selection.first(),
                self@.selection.second(),
            ),
    {
        if !self.selection.is_range() {
            return None;
        }
        let start: Pos = self.selection.get_first();
        let end: Pos = self.selection.get_second();
        proof {
            lemma_first_precedes_second(self@.selection);
        }
        let mut result = String::new();
        if end.row > start.row {
            let ghost rows = row_views(self.rows);
            let first_len: usize = self.rows[start.row].len();
            push_chars(&mut result, self.rows[start.row].as_slice(), start.column, first_len);
            result.push('\n');
            let ghost head = result@;
            assert(head =~= rows[start.row as int].skip(start.column as int).push('\n'));
            let mut row: usize = start.row + 1;
            assert(rows.subrange(start.row + 1, row as int) =~= Seq::<Seq<char>>::empty());
            while row < end.row
                invariant
                    start.row < row <= end.row < self.rows.len(),
                    rows == row_views(self.rows),
                    result@ == head + joined(rows.subrange(start.row + 1, row as int)),
                decreases end.row - row,
            {
                let len: usize = self.rows[row].len();
                push_chars(&mut result, self.rows[row].as_slice(), 0, len);
                result.push('\n');
                proof {
                    let shown = rows.subrange(start.row + 1, row + 1);
                    assert(shown.drop_last() =~= rows.subrange(start.row + 1, row as int));
                    assert(shown.last() =~= self.rows[row as int]@.subrange(0, len as int));
                    assert(result@ =~= head + joined(shown));
                }
                row = row + 1;
            }
            push_chars(&mut result, self.rows[end.row].as_slice(), 0, end.column);
        } else {
            push_chars(&mut result, self.rows[start.row].as_slice(), start.column, end.column);
        }
        Some(result)
    }
}

/// The selection, the pointer, and the blinking caret.
impl Editor {
    /// The caret or range selection.
    pub fn get_selection(&self) -> (selection: &Selection)
        ensures
            selection@ == self@.selection,
    {
        &self.selection
    }

    /// Puts the caret at the given place and makes its column the sticky one.
    pub fn set_cursor_pos(&mut self, row_index: usize, column_index: usize)
        ensures
            final(self)@ == old(self)@.with_selection(
                SelectionView::caret(Pos { row: row_index, column: column_index }),
            ).with_sticky_from_cursor(),
    {
        self.selection = Selection::single(row_index, column_index);
        self.last_column_index = column_index;
    }

    /// Selects from `start` to `end`; a caret if the two coincide.
    pub fn set_selection(&mut self, start: Pos, end: Pos)
        ensures
            final(self)@ == old(self)@.with_selection(
                SelectionView::range(start, end),
            ).with_sticky_from_cursor(),
    {
        self.selection = Selection::range(start, end);
        self.last_column_index = self.selection.get_cursor_pos().column;
    }

    /// Puts the caret where a click landed: `y` is clamped to the rows, `x`
    /// to the row's length.
    pub fn handle_click(&mut self, x: usize, y: usize)
        requires
            old(self)@.rows.len() > 0,
        ensures
            final(self)@ == old(self)@.with_selection(
                SelectionView::caret(old(self)@.clamped(x, y)),
            ),
            holds(final(self)@.rows, final(self)@.selection.anchor),
            old(self)@.rows_fit() ==> final(self)@.well_formed(),
    {
        let pos: Pos = self.clamp(x, y);
        self.selection = Selection::from_pos(pos);
    }

    /// Extends the selection to where a drag arrived, clamped as a click.
    pub fn handle_drag(&mut self, x: usize, y: usize)
        requires
            old(self)@.rows.len() > 0,
        ensures
            final(self)@ == old(self)@.with_selection(
                old(self)@.selection.extend(old(self)@.clamped(x, y)),
            ),
            old(self)@.well_formed() ==> final(self)@.well_formed(),
    {
        let pos: Pos = self.clamp(x, y);
        self.selection = self.selection.extend(pos);
    }

    /// The place nearest to column `x` of row `y` that the text has.
    fn clamp(&self, x: usize, y: usize) -> (pos: Pos)
        requires
            self@.rows.len() > 0,
        ensures
            pos == self@.clamped(x, y),
            holds(self@.rows, pos),
    {
        let line_count: usize = self.rows.len();
        let row: usize = if y >= line_count {
            line_count - 1
        } else {
            y
        };
        let len: usize = self.rows[row].len();
        let col: usize = if x <= len {
            x
        } else {
            len
        };
        Pos::from_row_column(row, col)
    }

    /// Toggles the caret if its time has come, and says whether it did. The
    /// next toggle is due 500 ms after this one.
    pub fn handle_tick(&mut self, now: u32) -> (changed: bool)
        requires
            now >= old(self)@.next_blink_at ==> now + BLINK_INTERVAL_MS <= u32::MAX,
        ensures
            changed == (now >= old(self)@.next_blink_at),
            final(self)@ == old(self)@.ticked(now),
    {
        if now >= self.next_blink_at {
            self.show_cursor = !self.show_cursor;
            self.next_blink_at = now + BLINK_INTERVAL_MS;
            true
        } else {
            false
        }
    }

    /// Whether the caret is shown at present.
    pub fn is_cursor_shown(&self) -> (shown: bool)
        ensures
            shown == self@.show_cursor,
    {
        self.show_cursor
    }
}

/// The keys: one state transition for each.
impl Editor {
    /// Handles one key and returns a hint of the first row that changed.
    pub fn handle_input(&mut self, input: InputKey, modifiers: InputModifiers) -> (first_modified:
        FirstModifiedRowIndex)
        requires
            old(self)@.well_formed(),
            input matches InputKey::Text(text) ==> can_lay_out(
                text@,
                old(self)@.max_line_len as int,
            ),
        ensures
            final(self)@ == old(self)@.after_key(input, modifiers),
            final(self)@.well_formed(),
            first_modified@ == 0,
    {
        match input {
            InputKey::Home => self.press_home(modifiers),
            InputKey::End => self.press_end(modifiers),
            InputKey::Right => self.press_right(modifiers),
            InputKey::Left => self.press_left(modifiers),
            InputKey::Up => self.press_up(modifiers),
            InputKey::Down => self.press_down(modifiers),
            InputKey::Del => self.press_del(modifiers),
            InputKey::Enter => self.press_enter(),
            InputKey::Backspace => self.press_backspace(modifiers),
            InputKey::Char(ch) => self.press_char(ch, modifiers),
            InputKey::Text(text) => self.press_text(text),
        }
        FirstModifiedRowIndex(0)
    }

    /// The column a backward word jump from `cur_pos` reaches in its row.
    pub fn jump_word_backward(&self, cur_pos: &Pos, mode: JumpMode) -> (col: usize)
        requires
            holds(self@.rows, *cur_pos),
        ensures
            col == jump_backward_col(self@.rows[cur_pos.row as int], cur_pos.column as int, mode),
            col <= cur_pos.column,
    {
        jump_backward(self.rows[cur_pos.row].as_slice(), cur_pos.column, mode)
    }

    /// The column a forward word jump from `cur_pos` reaches in its row.
    pub fn jump_word_forward(&self, cur_pos: &Pos, mode: JumpMode) -> (col: usize)
        requires
            holds(self@.rows, *cur_pos),
        ensures
            col == jump_forward_col(self@.rows[cur_pos.row as int], cur_pos.column as int, mode),
            cur_pos.column <= col <= self@.rows[cur_pos.row as int].len(),
    {
        jump_forward(self.rows[cur_pos.row].as_slice(), cur_pos.column, mode)
    }

    /// Takes the cursor to `new_pos`, extending the selection with shift held.
    fn move_cursor(&mut self, new_pos: Pos, shift: bool)
        requires
            old(self)@.well_formed(),
            holds(old(self)@.rows, new_pos),
        ensures
            final(self)@ == old(self)@.with_selection(old(self)@.moved_to(new_pos, shift)),
            final(self)@.well_formed(),
    {
        self.selection = if shift {
            self.selection.extend(new_pos)
        } else {
            Selection::from_pos(new_pos)
        };
    }

    /// Takes the cursor sideways to `new_pos`; without shift a range
    /// collapses to `edge` instead.
    fn move_sideways(&mut self, new_pos: Pos, edge: Pos, shift: bool)
        requires
            old(self)@.well_formed(),
            holds(old(self)@.rows, new_pos),
            holds(old(self)@.rows, edge),
        ensures
            final(self)@ == old(self)@.with_selection(
                old(self)@.moved_sideways(new_pos, edge, shift),
            ).with_sticky_from_cursor(),
            final(self)@.well_formed(),
    {
        self.selection = if shift {
            self.selection.extend(new_pos)
        } else if self.selection.is_range() {
            Selection::from_pos(edge)
        } else {
            Selection::from_pos(new_pos)
        };
        self.last_column_index = self.selection.get_cursor_pos().column;
    }

    /// The sticky column, as far as row `row` reaches.
    fn sticky_column_in(&self, row: usize) -> (col: usize)
        requires
            row < self@.rows.len(),
        ensures
            col == self@.sticky_in(row as int),
            col <= self@.rows[row as int].len(),
    {
        let len: usize = self.rows[row].len();
        if self.last_column_index <= len {
            self.last_column_index
        } else {
            len
        }
    }

    /// Home.
    fn press_home(&mut self, modifiers: InputModifiers)
        requires
            old(self)@.well_formed(),
        ensures
            final(self)@ == old(self)@.after_home(modifiers),
            final(self)@.well_formed(),
    {
        let cur_pos: Pos = self.selection.get_cursor_pos();
        self.move_cursor(cur_pos.with_column(0), modifiers.shift);
        self.last_column_index = self.selection.get_cursor_pos().column;
    }

    /// End.
    fn press_end(&mut self, modifiers: InputModifiers)
        requires
            old(self)@.well_formed(),
        ensures
            final(self)@ == old(self)@.after_end(modifiers),
            final(self)@.well_formed(),
    {
        let cur_pos: Pos = self.selection.get_cursor_pos();
        let len: usize = self.rows[cur_pos.row].len();
        self.move_cursor(cur_pos.with_column(len), modifiers.shift);
        self.last_column_index = self.selection.get_cursor_pos().column;
    }

    /// Right.
    fn press_right(&mut self, modifiers: InputModifiers)
        requires
            old(self)@.well_formed(),
        ensures
            final(self)@ == old(self)@.after_right(modifiers),
            final(self)@.well_formed(),
    {
        let cur_pos: Pos = self.selection.get_cursor_pos();
        assert(cur_pos.row < self.rows.len());
        let new_pos: Pos = if cur_pos.column >= self.rows[cur_pos.row].len() {
            if cur_pos.row + 1 < self.rows.len() {
                Pos::from_row_column(cur_pos.row + 1, 0)
            } else {
                cur_pos
            }
        } else {
            let col: usize = if modifiers.ctrl {
                self.jump_word_forward(&cur_pos, JumpMode::IgnoreWhitespaces)
            } else {
                cur_pos.column + 1
            };
            cur_pos.with_column(col)
        };
        let edge: Pos = self.selection.get_second();
        proof {
            lemma_first_precedes_second(self@.selection);
        }
        self.move_sideways(new_pos, edge, modifiers.shift);
    }

    /// Left.
    fn press_left(&mut self, modifiers: InputModifiers)
        requires
            old(self)@.well_formed(),
        ensures
            final(self)@ == old(self)@.after_left(modifiers),
            final(self)@.well_formed(),
    {
        let cur_pos: Pos = self.selection.get_cursor_pos();
        let new_pos: Pos = if cur_pos.column == 0 {
            if cur_pos.row >= 1 {
                Pos::from_row_column(cur_pos.row - 1, self.rows[cur_pos.row - 1].len())
            } else {
                cur_pos
            }
        } else {
            let col: usize = if modifiers.ctrl {
                self.jump_word_backward(&cur_pos, JumpMode::IgnoreWhitespaces)
            } else {
                cur_pos.column - 1
            };
            cur_pos.with_column(col)
        };
        let edge: Pos = self.selection.get_first();
        proof {
            lemma_first_precedes_second(self@.selection);
        }
        self.move_sideways(new_pos, edge, modifiers.shift);
    }

    /// Up.
    fn press_up(&mut self, modifiers: InputModifiers)
        requires
            old(self)@.well_formed(),
        ensures
            final(self)@ == old(self)@.after_up(modifiers),
            final(self)@.well_formed(),
    {
        let cur_pos: Pos = self.selection.get_cursor_pos();
        let new_pos: Pos = if cur_pos.row == 0 {
            cur_pos.with_column(0)
        } else {
            Pos::from_row_column(cur_pos.row - 1, self.sticky_column_in(cur_pos.row - 1))
        };
        self.move_cursor(new_pos, modifiers.shift);
    }

    /// Down.
    fn press_down(&mut self, modifiers: InputModifiers)
        requires
            old(self)@.well_formed(),
        ensures
            final(self)@ == old(self)@.after_down(modifiers),
            final(self)@.well_formed(),
    {
        let cur_pos: Pos = self.selection.get_cursor_pos();
        assert(cur_pos.row < self.rows.len());
        let new_pos: Pos = if cur_pos.row + 1 == self.rows.len() {
            cur_pos.with_column(self.rows[cur_pos.row].len())
        } else {
            Pos::from_row_column(cur_pos.row + 1, self.sticky_column_in(cur_pos.row + 1))
        };
        self.move_cursor(new_pos, modifiers.shift);
    }

    /// Takes the selected range out of the text and leaves the caret on its
    /// first edge; nothing happens if the range cannot be taken out.
    fn remove_selected(&mut self) -> (ok: bool)
        requires
            old(self)@.well_formed(),
        ensures
            ok == old(self)@.can_remove_selected(),
            ok ==> final(self)@ == old(self)@.selected_removed(),
            !ok ==> final(self)@ == old(self)@,
            final(self)@.well_formed(),
    {
        let first: Pos = self.selection.get_first();
        let second: Pos = self.selection.get_second();
        proof {
            lemma_first_precedes_second(self@.selection);
        }
        if self.remove_selection(first, second) {
            self.selection = Selection::from_pos(first);
            true
        } else {
            false
        }
    }

    /// Delete.
    fn press_del(&mut self, modifiers: InputModifiers)
        requires
            old(self)@.well_formed(),
        ensures
            final(self)@ == old(self)@.after_del(modifiers),
            final(self)@.well_formed(),
    {
        let cur_pos: Pos = self.selection.get_cursor_pos();
        assert(cur_pos.row < self.rows.len());
        if self.selection.is_range() {
            self.remove_selected();
        } else if cur_pos.column == self.rows[cur_pos.row].len() {
            if cur_pos.row + 1 < self.rows.len() {
                self.merge_with_next_row(cur_pos.row, cur_pos.column, 0);
            }
        } else if modifiers.ctrl {
            let col: usize = self.jump_word_forward(&cur_pos, JumpMode::ConsiderWhitespaces);
            self.remove_selection(cur_pos, cur_pos.with_column(col));
        } else {
            self.remove_char(cur_pos.row, cur_pos.column);
        }
    }

    /// Backspace.
    fn press_backspace(&mut self, modifiers: InputModifiers)
        requires
            old(self)@.well_formed(),
        ensures
            final(self)@ == old(self)@.after_backspace(modifiers),
            final(self)@.well_formed(),
    {
        let cur_pos: Pos = self.selection.get_cursor_pos();
        if self.selection.is_range() {
            self.remove_selected();
        } else if cur_pos.column == 0 {
            if cur_pos.row > 0 {
                let prev_row_i: usize = cur_pos.row - 1;
                let prev_len_before_merge: usize = self.rows[prev_row_i].len();
                if self.merge_with_next_row(prev_row_i, prev_len_before_merge, 0) {
                    self.selection = Selection::from_pos(
                        Pos::from_row_column(prev_row_i, prev_len_before_merge),
                    );
                }
            }
        } else if modifiers.ctrl {
            let col: usize = self.jump_word_backward(&cur_pos, JumpMode::IgnoreWhitespaces);
            let new_pos: Pos = cur_pos.with_column(col);
            self.remove_selection(new_pos, cur_pos);
            self.selection = Selection::from_pos(new_pos);
        } else if self.remove_char(cur_pos.row, cur_pos.column - 1) {
            self.selection = Selection::from_pos(cur_pos.with_column(cur_pos.column - 1));
        }
    }

    /// Cuts the row at the caret and puts the caret at the start of the new
    /// row.
    fn break_at_caret(&mut self)
        requires
            old(self)@.well_formed(),
            !old(self)@.selection.is_range(),
        ensures
            final(self)@ == old(self)@.broken_at_caret(),
            final(self)@.well_formed(),
    {
        let cur_pos: Pos = self.selection.get_cursor_pos();
        self.split_line(cur_pos.row, cur_pos.column);
        assert(self@.rows.len() == old(self)@.rows.len() + 1);
        assert(cur_pos.row + 1 < self.rows.len());
        self.selection = Selection::from_pos(Pos::from_row_column(cur_pos.row + 1, 0));
    }

    /// Enter.
    fn press_enter(&mut self)
        requires
            old(self)@.well_formed(),
        ensures
            final(self)@ == old(self)@.after_enter(),
            final(self)@.well_formed(),
    {
        if self.selection.is_range() {
            if self.remove_selected() {
                self.break_at_caret();
            }
        } else {
            self.break_at_caret();
        }
    }

    /// Types `ch` at the caret, which moves behind it; nothing happens if
    /// the row is full.
    fn type_at_caret(&mut self, ch: char)
        requires
            old(self)@.well_formed(),
            !old(self)@.selection.is_range(),
        ensures
            final(self)@ == old(self)@.typed_at_caret(ch),
            final(self)@.well_formed(),
    {
        let cur_pos: Pos = self.selection.get_cursor_pos();
        if self.insert_char(cur_pos.row, cur_pos.column, ch) {
            self.selection = Selection::from_pos(cur_pos.with_column(cur_pos.column + 1));
        }
    }

    /// Grows the selection to the word boundaries around it.
    fn grow_to_words(&mut self)
        requires
            old(self)@.well_formed(),
        ensures
            final(self)@ == old(self)@.grown_to_words(),
            final(self)@.well_formed(),
    {
        let mode: JumpMode = if self.selection.is_range() {
            JumpMode::IgnoreWhitespaces
        } else {
            JumpMode::BlockOnWhitespace
        };
        let first: Pos = self.selection.get_first();
        let second: Pos = self.selection.get_second();
        proof {
            lemma_first_precedes_second(self@.selection);
        }
        let prev_index: usize = self.jump_word_backward(&first, mode);
        let next_index: usize = self.jump_word_forward(&second, mode);
        self.selection = Selection::range(
            first.with_column(prev_index),
            second.with_column(next_index),
        );
    }

    /// A character key.
    fn press_char(&mut self, ch: char, modifiers: InputModifiers)
        requires
            old(self)@.well_formed(),
        ensures
            final(self)@ == old(self)@.after_char(ch, modifiers),
            final(self)@.well_formed(),
    {
        if ch == 'e' && modifiers.ctrl {
            self.grow_to_words();
        } else if self.selection.is_range() {
            if self.remove_selected() {
                self.type_at_caret(ch);
            }
        } else {
            self.type_at_caret(ch);
        }
    }

    /// Inserts `text` at the cursor and lets what stood behind the cursor in
    /// its row follow the text.
    fn press_text(&mut self, text: &str)
        requires
            old(self)@.well_formed(),
            can_lay_out(text@, old(self)@.max_line_len as int),
        ensures
            final(self)@ == old(self)@.after_text(text@),
            final(self)@.well_formed(),
    {
        let cur_pos: Pos = self.selection.get_cursor_pos();
        let ghost before = row_views(self.rows);
        let ghost max = self.max_line_len as int;
        let rest: Vec<char> = self.rows[cur_pos.row].split_off(cur_pos.column);
        proof {
            let shortened = before.update(
                cur_pos.row as int,
                before[cur_pos.row as int].take(cur_pos.column as int),
            );
            assert(row_views(self.rows) =~= shortened);
            assert(shortened[cur_pos.row as int].take(cur_pos.column as int)
                =~= shortened[cur_pos.row as int]);
            assert(shortened.update(cur_pos.row as int, shortened[cur_pos.row as int])
                =~= shortened);
            assert(rest@ == before[cur_pos.row as int].skip(cur_pos.column as int));
        }
        let new_pos: Pos = self.insert_at(text, cur_pos.row, cur_pos.column);
        proof {
            lemma_laid_out(row_views(self.rows), new_pos.row as int, rest@, max);
        }
        self.put_chars(&rest, new_pos.row);
        self.selection = Selection::from_pos(new_pos);
    }
}

/// Appends the characters `from..to` of `chars` to `text`.
fn push_chars(text: &mut String, chars: &[char], from: usize, to: usize)
    requires
        from <= to <= chars@.len(),
    ensures
        final(text)@ == old(text)@ + chars@.subrange(from as int, to as int),
{
    let mut i: usize = from;
    assert(chars@.subrange(from as int, from as int) =~= Seq::<char>::empty());
    assert(text@ + Seq::<char>::empty() =~= text@);
    while i < to
        invariant
            from <= i <= to <= chars@.len(),
            text@ == old(text)@ + chars@.subrange(from as int, i as int),
        decreases to - i,
    {
        text.push(chars[i]);
        assert(chars@.subrange(from as int, i + 1) =~= chars@.subrange(from as int, i as int).push(
            chars@[i as int],
        ));
        i = i + 1;
    }
}

} // verus!

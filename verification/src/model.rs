//! The editor as mathematics: its state, and the state that follows each key.

use vstd::prelude::*;
use crate::input::{InputKey, InputModifiers};
use crate::lines::{
    all_cleared, can_merge, can_remove_range, cut_at, holds, laid_out, merged, rows_fit,
    text_inserted, with_char_inserted, with_char_removed, without_range, Rows,
};
use crate::position::{Pos, SelectionView};
use crate::words::{jump_backward_col, jump_forward_col, JumpMode};

verus! {

/// The time between two toggles of the caret, in milliseconds.
pub const BLINK_INTERVAL_MS: u32 = 500;

/// The mathematical value of an editor.
pub struct EditorView {
    /// The text, row by row.
    pub rows: Rows,
    /// The caret or range selection.
    pub selection: SelectionView,
    /// The column that vertical moves try to keep.
    pub sticky_column: usize,
    /// The capacity of every row, in code points.
    pub max_line_len: usize,
    /// The time from which the next tick toggles the caret.
    pub next_blink_at: u32,
    /// Whether the caret is shown.
    pub show_cursor: bool,
}

impl EditorView {
    /// The editor as it is created: one empty row and the caret in it.
    pub open spec fn fresh(max_line_len: usize) -> EditorView {
        EditorView {
            rows: seq![Seq::<char>::empty()],
            selection: SelectionView::caret(Pos { row: 0, column: 0 }),
            sticky_column: 0,
            max_line_len,
            next_blink_at: 0,
            show_cursor: false,
        }
    }

    /// No row exceeds the capacity.
    pub open spec fn rows_fit(self) -> bool {
        rows_fit(self.rows, self.max_line_len as int)
    }

    /// The state in which keys can be handled: there is a row, no row exceeds
    /// the capacity, and the selection lies inside the text.
    pub open spec fn well_formed(self) -> bool {
        &&& self.rows.len() > 0
        &&& self.rows_fit()
        &&& self.selection.well_formed()
        &&& holds(self.rows, self.selection.anchor)
        &&& self.selection.end matches Some(end) ==> holds(self.rows, end)
    }

    /// The same editor with other rows.
    pub open spec fn with_rows(self, rows: Rows) -> EditorView {
        EditorView { rows, ..self }
    }

    /// The same editor with another selection.
    pub open spec fn with_selection(self, selection: SelectionView) -> EditorView {
        EditorView { selection, ..self }
    }

    /// The same editor with the sticky column taken from where the selection's
    /// moving point stands.
    pub open spec fn with_sticky_from_cursor(self) -> EditorView {
        EditorView { sticky_column: self.selection.cursor().column, ..self }
    }

    /// The position every relative move starts from.
    pub open spec fn cursor(self) -> Pos {
        self.selection.cursor()
    }

    /// The row the cursor is in.
    pub open spec fn cursor_line(self) -> Seq<char> {
        self.rows[self.cursor().row as int]
    }

    /// The selection after the cursor has gone to `new_pos`: extended with
    /// shift held, else a caret there.
    pub open spec fn moved_to(self, new_pos: Pos, shift: bool) -> SelectionView {
        if shift {
            self.selection.extend(new_pos)
        } else {
            SelectionView::caret(new_pos)
        }
    }

    /// The selection after a horizontal move to `new_pos`: extended with
    /// shift held; without shift a range collapses to `edge`, and a caret
    /// goes to `new_pos`.
    pub open spec fn moved_sideways(self, new_pos: Pos, edge: Pos, shift: bool) -> SelectionView {
        if shift {
            self.selection.extend(new_pos)
        } else if self.selection.is_range() {
            SelectionView::caret(edge)
        } else {
            SelectionView::caret(new_pos)
        }
    }

    /// Home: to column 0 of the cursor's row.
    pub open spec fn after_home(self, modifiers: InputModifiers) -> EditorView {
        let target = Pos { row: self.cursor().row, column: 0 };
        self.with_selection(self.moved_to(target, modifiers.shift)).with_sticky_from_cursor()
    }

    /// End: behind the last character of the cursor's row.
    pub open spec fn after_end(self, modifiers: InputModifiers) -> EditorView {
        let target = Pos { row: self.cursor().row, column: self.cursor_line().len() as usize };
        self.with_selection(self.moved_to(target, modifiers.shift)).with_sticky_from_cursor()
    }

    /// Where Right takes the cursor: one column on, or with ctrl to the next
    /// word boundary; from the end of a row to the start of the next row.
    pub open spec fn right_of_cursor(self, ctrl: bool) -> Pos {
        let cur = self.cursor();
        if cur.column >= self.cursor_line().len() {
            if cur.row + 1 < self.rows.len() {
                Pos { row: (cur.row + 1) as usize, column: 0 }
            } else {
                cur
            }
        } else if ctrl {
            Pos {
                row: cur.row,
                column: jump_forward_col(
                    self.cursor_line(),
                    cur.column as int,
                    JumpMode::IgnoreWhitespaces,
                ) as usize,
            }
        } else {
            Pos { row: cur.row, column: (cur.column + 1) as usize }
        }
    }

    /// Where Left takes the cursor: one column back, or with ctrl to the
    /// previous word boundary; from the start of a row to the end of the
    /// previous row.
    pub open spec fn left_of_cursor(self, ctrl: bool) -> Pos {
        let cur = self.cursor();
        if cur.column == 0 {
            if cur.row >= 1 {
                Pos { row: (cur.row - 1) as usize, column: self.rows[cur.row - 1].len() as usize }
            } else {
                cur
            }
        } else if ctrl {
            Pos {
                row: cur.row,
                column: jump_backward_col(
                    self.cursor_line(),
                    cur.column as int,
                    JumpMode::IgnoreWhitespaces,
                ) as usize,
            }
        } else {
            Pos { row: cur.row, column: (cur.column - 1) as usize }
        }
    }

    /// Right. Without shift a range collapses to its second edge.
    pub open spec fn after_right(self, modifiers: InputModifiers) -> EditorView {
        self.with_selection(
            self.moved_sideways(
                self.right_of_cursor(modifiers.ctrl),
                self.selection.second(),
                modifiers.shift,
            ),
        ).with_sticky_from_cursor()
    }

    /// Left. Without shift a range collapses to its first edge.
    pub open spec fn after_left(self, modifiers: InputModifiers) -> EditorView {
        self.with_selection(
            self.moved_sideways(
                self.left_of_cursor(modifiers.ctrl),
                self.selection.first(),
                modifiers.shift,
            ),
        ).with_sticky_from_cursor()
    }

    /// The sticky column, as far as row `row` reaches.
    pub open spec fn sticky_in(self, row: int) -> usize {
        if self.sticky_column <= self.rows[row].len() {
            self.sticky_column
        } else {
            self.rows[row].len() as usize
        }
    }

    /// Up: to the sticky column of the row above; in the first row to
    /// column 0. The sticky column stays.
    pub open spec fn after_up(self, modifiers: InputModifiers) -> EditorView {
        let cur = self.cursor();
        let target = if cur.row == 0 {
            Pos { row: cur.row, column: 0 }
        } else {
            Pos { row: (cur.row - 1) as usize, column: self.sticky_in(cur.row - 1) }
        };
        self.with_selection(self.moved_to(target, modifiers.shift))
    }

    /// Down: to the sticky column of the row below; in the last row to the
    /// end of the row. The sticky column stays.
    pub open spec fn after_down(self, modifiers: InputModifiers) -> EditorView {
        let cur = self.cursor();
        let target = if cur.row + 1 == self.rows.len() {
            Pos { row: cur.row, column: self.cursor_line().len() as usize }
        } else {
            Pos { row: (cur.row + 1) as usize, column: self.sticky_in(cur.row + 1) }
        };
        self.with_selection(self.moved_to(target, modifiers.shift))
    }

    /// Whether the selected range can be taken out of the text.
    pub open spec fn can_remove_selected(self) -> bool {
        can_remove_range(
            self.rows,
            self.selection.first(),
            self.selection.second(),
            self.max_line_len as int,
        )
    }

    /// The selected range taken out and the caret on its first edge.
    pub open spec fn selected_removed(self) -> EditorView {
        self.with_rows(
            without_range(self.rows, self.selection.first(), self.selection.second()),
        ).with_selection(SelectionView::caret(self.selection.first()))
    }

    /// Delete. A range is taken out, if the rows at its edges fit into one.
    /// A caret at the end of a row pulls the next row up, if both fit into
    /// one; elsewhere it deletes one character, or with ctrl up to the next
    /// word boundary, whitespace counting as a word.
    pub open spec fn after_del(self, modifiers: InputModifiers) -> EditorView {
        let cur = self.cursor();
        if self.selection.is_range() {
            if self.can_remove_selected() {
                self.selected_removed()
            } else {
                self
            }
        } else if cur.column == self.cursor_line().len() {
            if cur.row + 1 < self.rows.len() && can_merge(
                self.rows,
                cur.row as int,
                self.max_line_len as int,
            ) {
                self.with_rows(merged(self.rows, cur.row as int, cur.column as int, 0))
            } else {
                self
            }
        } else if modifiers.ctrl {
            let until = Pos {
                row: cur.row,
                column: jump_forward_col(
                    self.cursor_line(),
                    cur.column as int,
                    JumpMode::ConsiderWhitespaces,
                ) as usize,
            };
            self.with_rows(without_range(self.rows, cur, until))
        } else {
            self.with_rows(with_char_removed(self.rows, cur.row as int, cur.column as int))
        }
    }

    /// Backspace. A range is taken out as by Delete. A caret at the start of
    /// a row joins the row to the one above, if both fit into one, and stands
    /// where the two met; elsewhere it deletes one character backward, or with
    /// ctrl back to the previous word boundary.
    pub open spec fn after_backspace(self, modifiers: InputModifiers) -> EditorView {
        let cur = self.cursor();
        if self.selection.is_range() {
            if self.can_remove_selected() {
                self.selected_removed()
            } else {
                self
            }
        } else if cur.column == 0 {
            if cur.row > 0 && can_merge(self.rows, cur.row - 1, self.max_line_len as int) {
                let joint = Pos {
                    row: (cur.row - 1) as usize,
                    column: self.rows[cur.row - 1].len() as usize,
                };
                self.with_rows(
                    merged(self.rows, cur.row - 1, joint.column as int, 0),
                ).with_selection(SelectionView::caret(joint))
            } else {
                self
            }
        } else if modifiers.ctrl {
            let from = Pos {
                row: cur.row,
                column: jump_backward_col(
                    self.cursor_line(),
                    cur.column as int,
                    JumpMode::IgnoreWhitespaces,
                ) as usize,
            };
            self.with_rows(without_range(self.rows, from, cur)).with_selection(
                SelectionView::caret(from),
            )
        } else {
            self.with_rows(
                with_char_removed(self.rows, cur.row as int, cur.column - 1),
            ).with_selection(
                SelectionView::caret(Pos { row: cur.row, column: (cur.column - 1) as usize }),
            )
        }
    }

    /// The row cut at the caret, and the caret at the start of the new row.
    pub open spec fn broken_at_caret(self) -> EditorView {
        let cur = self.cursor();
        self.with_rows(cut_at(self.rows, cur.row as int, cur.column as int)).with_selection(
            SelectionView::caret(Pos { row: (cur.row + 1) as usize, column: 0 }),
        )
    }

    /// Enter. A range is taken out first, if it can be; then the row is cut
    /// at the caret.
    pub open spec fn after_enter(self) -> EditorView {
        if self.selection.is_range() {
            if self.can_remove_selected() {
                self.selected_removed().broken_at_caret()
            } else {
                self
            }
        } else {
            self.broken_at_caret()
        }
    }

    /// `ch` typed at the caret, which moves behind it; nothing if the row is
    /// full.
    pub open spec fn typed_at_caret(self, ch: char) -> EditorView {
        let cur = self.cursor();
        if self.cursor_line().len() < self.max_line_len {
            self.with_rows(
                with_char_inserted(self.rows, cur.row as int, cur.column as int, ch),
            ).with_selection(
                SelectionView::caret(Pos { row: cur.row, column: (cur.column + 1) as usize }),
            )
        } else {
            self
        }
    }

    /// The selection grown to word boundaries: backward from its first edge
    /// and forward from its second edge. A caret grows to the token it
    /// touches and stops at whitespace; a range grows across whitespace into
    /// the tokens next to it.
    pub open spec fn grown_to_words(self) -> EditorView {
        let mode = if self.selection.is_range() {
            JumpMode::IgnoreWhitespaces
        } else {
            JumpMode::BlockOnWhitespace
        };
        let first = self.selection.first();
        let second = self.selection.second();
        let from = Pos {
            row: first.row,
            column: jump_backward_col(self.rows[first.row as int], first.column as int, mode) as usize,
        };
        let to = Pos {
            row: second.row,
            column: jump_forward_col(self.rows[second.row as int], second.column as int, mode) as usize,
        };
        self.with_selection(SelectionView::range(from, to))
    }

    /// A character key. `e` with ctrl grows the selection to word
    /// boundaries. Any other character replaces a range, if the range can be
    /// taken out, or is typed at the caret.
    pub open spec fn after_char(self, ch: char, modifiers: InputModifiers) -> EditorView {
        if ch == 'e' && modifiers.ctrl {
            self.grown_to_words()
        } else if self.selection.is_range() {
            if self.can_remove_selected() {
                self.selected_removed().typed_at_caret(ch)
            } else {
                self
            }
        } else {
            self.typed_at_caret(ch)
        }
    }

    /// A text inserted at the cursor. What stood behind the cursor in its
    /// row follows the text's last line; the caret stands between the two.
    pub open spec fn after_text(self, text: Seq<char>) -> EditorView {
        let cur = self.cursor();
        let max = self.max_line_len as int;
        let rest = self.cursor_line().skip(cur.column as int);
        let (rows, row) = text_inserted(self.rows, cur.row as int, cur.column as int, text, max);
        let caret = Pos { row: row as usize, column: rows[row].len() as usize };
        self.with_rows(laid_out(rows, row, rest, max).0).with_selection(
            SelectionView::caret(caret),
        )
    }

    /// The place nearest to column `x` of row `y` that the text has.
    pub open spec fn clamped(self, x: usize, y: usize) -> Pos {
        let row = if y >= self.rows.len() {
            (self.rows.len() - 1) as usize
        } else {
            y
        };
        let column = if x <= self.rows[row as int].len() {
            x
        } else {
            self.rows[row as int].len() as usize
        };
        Pos { row, column }
    }

    /// The editor with `text` for its content: every row emptied, the text
    /// laid out from the start of the first row, the caret there, and the
    /// sticky column 0.
    pub open spec fn with_content(self, text: Seq<char>) -> EditorView {
        EditorView {
            rows: text_inserted(all_cleared(self.rows), 0, 0, text, self.max_line_len as int).0,
            selection: SelectionView::caret(Pos { row: 0, column: 0 }),
            sticky_column: 0,
            ..self
        }
    }

    /// The state after a tick at time `now`: the caret toggles if its time
    /// has come, and the next toggle is due one interval later.
    pub open spec fn ticked(self, now: u32) -> EditorView {
        if now >= self.next_blink_at {
            EditorView {
                show_cursor: !self.show_cursor,
                next_blink_at: (now + BLINK_INTERVAL_MS) as u32,
                ..self
            }
        } else {
            self
        }
    }

    /// The state that follows a key.
    pub open spec fn after_key(self, key: InputKey, modifiers: InputModifiers) -> EditorView {
        match key {
            InputKey::Home => self.after_home(modifiers),
            InputKey::End => self.after_end(modifiers),
            InputKey::Right => self.after_right(modifiers),
            InputKey::Left => self.after_left(modifiers),
            InputKey::Up => self.after_up(modifiers),
            InputKey::Down => self.after_down(modifiers),
            InputKey::Del => self.after_del(modifiers),
            InputKey::Enter => self.after_enter(),
            InputKey::Backspace => self.after_backspace(modifiers),
            InputKey::Char(ch) => self.after_char(ch, modifiers),
            InputKey::Text(text) => self.after_text(text@),
        }
    }
}

} // verus!

use notecalc_lib::position::{Pos, Selection};

fn pos(row: usize, column: usize) -> Pos {
    Pos { row, column }
}

#[test]
fn from_row_column_and_with_column_build_positions() {
    assert_eq!(Pos::from_row_column(3, 7), pos(3, 7));
    assert_eq!(pos(3, 7).with_column(1), pos(3, 1));
}

#[test]
fn is_before_orders_by_row_then_column() {
    assert!(pos(0, 5).is_before(&pos(1, 0)));
    assert!(pos(2, 1).is_before(&pos(2, 2)));
    assert!(!pos(2, 2).is_before(&pos(2, 2)));
    assert!(!pos(3, 0).is_before(&pos(2, 9)));
}

#[test]
fn caret_has_no_range() {
    let caret = Selection::from_pos(pos(2, 3));
    assert!(!caret.is_range());
    assert_eq!(caret.start(), pos(2, 3));
    assert_eq!(caret.end(), None);
    assert_eq!(caret.get_first(), pos(2, 3));
    assert_eq!(caret.get_second(), pos(2, 3));
    assert_eq!(caret.get_cursor_pos(), pos(2, 3));
    assert_eq!(caret, Selection::single(2, 3));
}

#[test]
fn range_with_equal_ends_collapses_to_a_caret() {
    let collapsed = Selection::range(pos(1, 4), pos(1, 4));
    assert!(!collapsed.is_range());
    assert_eq!(collapsed, Selection::single(1, 4));
}

#[test]
fn forward_range_keeps_anchor_and_end() {
    let range = Selection::range(pos(0, 1), pos(2, 0));
    assert!(range.is_range());
    assert_eq!(range.start(), pos(0, 1));
    assert_eq!(range.end(), Some(pos(2, 0)));
    assert_eq!(range.get_first(), pos(0, 1));
    assert_eq!(range.get_second(), pos(2, 0));
    assert_eq!(range.get_cursor_pos(), pos(2, 0));
}

#[test]
fn backward_range_orders_its_edges() {
    let range = Selection::range(pos(2, 0), pos(0, 1));
    assert_eq!(range.start(), pos(2, 0));
    assert_eq!(range.end(), Some(pos(0, 1)));
    assert_eq!(range.get_first(), pos(0, 1));
    assert_eq!(range.get_second(), pos(2, 0));
    assert_eq!(range.get_cursor_pos(), pos(0, 1));
}

#[test]
fn edges_are_ordered_within_one_row() {
    let range = Selection::range(pos(4, 9), pos(4, 2));
    assert_eq!(range.get_first(), pos(4, 2));
    assert_eq!(range.get_second(), pos(4, 9));
}

#[test]
fn rows_outrank_any_column() {
    // A column beyond a thousand still comes before the start of the next row.
    let range = Selection::range(pos(1, 0), pos(0, 2000));
    assert_eq!(range.get_first(), pos(0, 2000));
    assert_eq!(range.get_second(), pos(1, 0));

    let widest = Selection::range(pos(0, usize::MAX), pos(1, 0));
    assert_eq!(widest.get_first(), pos(0, usize::MAX));
    assert_eq!(widest.get_second(), pos(1, 0));
}

#[test]
fn first_never_comes_after_second() {
    let places = [pos(0, 0), pos(0, 3), pos(1, 0), pos(1, 3), pos(7, 1025)];
    for a in places.iter() {
        for b in places.iter() {
            let selection = Selection::range(*a, *b);
            let first = selection.get_first();
            let second = selection.get_second();
            assert!(!second.is_before(&first));
            assert!(first == *a || first == *b);
            assert!(second == *a || second == *b);
        }
    }
}

#[test]
fn extend_moves_the_floating_end_only() {
    let caret = Selection::single(1, 2);
    let range = caret.extend(pos(1, 5));
    assert_eq!(range.start(), pos(1, 2));
    assert_eq!(range.end(), Some(pos(1, 5)));

    let further = range.extend(pos(0, 0));
    assert_eq!(further.start(), pos(1, 2));
    assert_eq!(further.end(), Some(pos(0, 0)));
}

#[test]
fn extend_back_to_the_anchor_collapses() {
    let range = Selection::range(pos(1, 2), pos(3, 3));
    let collapsed = range.extend(pos(1, 2));
    assert!(!collapsed.is_range());
    assert_eq!(collapsed, Selection::single(1, 2));
}

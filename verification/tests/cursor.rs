use monster_shell::position::{CurrentPosition, SHELL_HEIGHT, SHELL_WIDTH};

fn cursor_at(row: usize, col: usize) -> CurrentPosition {
    CurrentPosition::at(row, col).expect("a cell of the grid")
}

fn place(position: &CurrentPosition) -> (usize, usize) {
    (position.row(), position.col())
}

#[test]
fn grid_is_24_rows_of_80_columns() {
    assert_eq!(SHELL_HEIGHT, 24);
    assert_eq!(SHELL_WIDTH, 80);
}

#[test]
fn new_cursor_is_at_the_origin() {
    assert_eq!(place(&CurrentPosition::new()), (0, 0));
    assert_eq!(place(&CurrentPosition::default()), (0, 0));
    assert_eq!(CurrentPosition::new(), cursor_at(0, 0));
}

#[test]
fn at_accepts_only_cells_of_the_grid() {
    assert!(CurrentPosition::at(23, 79).is_some());
    assert!(CurrentPosition::at(24, 0).is_none());
    assert!(CurrentPosition::at(0, 80).is_none());
    assert!(CurrentPosition::at(usize::MAX, usize::MAX).is_none());
}

#[test]
fn step_forward_advances_the_column() {
    let mut cursor = cursor_at(3, 10);
    let next = cursor.step_forward();
    assert_eq!(place(&cursor), (3, 11));
    assert_eq!(next, cursor);
}

#[test]
fn step_forward_wraps_to_the_next_row() {
    let mut cursor = cursor_at(3, 79);
    cursor.step_forward();
    assert_eq!(place(&cursor), (4, 0));
}

#[test]
fn step_forward_wraps_from_the_last_cell_to_the_origin() {
    let mut cursor = cursor_at(23, 79);
    let next = cursor.step_forward();
    assert_eq!(place(&cursor), (0, 0));
    assert_eq!(place(&next), (0, 0));
}

#[test]
fn a_full_lap_returns_to_the_origin_and_not_before() {
    let mut cursor = CurrentPosition::new();
    for step in 1..SHELL_HEIGHT * SHELL_WIDTH {
        cursor.step_forward();
        assert_ne!(place(&cursor), (0, 0), "back at the origin after {} steps", step);
    }
    cursor.step_forward();
    assert_eq!(place(&cursor), (0, 0));
}

#[test]
fn a_full_lap_returns_to_any_start() {
    for (row, col) in [(0, 1), (7, 42), (12, 0), (23, 79)] {
        let mut cursor = cursor_at(row, col);
        for _ in 1..SHELL_HEIGHT * SHELL_WIDTH {
            cursor.step_forward();
            assert_ne!(place(&cursor), (row, col));
        }
        cursor.step_forward();
        assert_eq!(place(&cursor), (row, col));
    }
}

#[test]
fn step_forward_visits_the_cells_in_reading_order() {
    let mut cursor = CurrentPosition::new();
    for offset in 0..SHELL_HEIGHT * SHELL_WIDTH {
        assert_eq!(place(&cursor), (offset / SHELL_WIDTH, offset % SHELL_WIDTH));
        cursor.step_forward();
    }
}

#[test]
fn step_backward_moves_one_column_back() {
    let mut cursor = cursor_at(5, 17);
    let previous = cursor.step_backward();
    assert_eq!(place(&cursor), (5, 16));
    assert_eq!(previous, Some(cursor));
}

#[test]
fn step_backward_from_column_zero_lands_on_the_row_above() {
    let mut cursor = cursor_at(5, 0);
    let previous = cursor.step_backward();
    assert_eq!(place(&cursor), (4, 79));
    assert_eq!(previous, Some(cursor_at(4, 79)));
}

#[test]
fn step_backward_onto_the_origin_reports_no_previous_position() {
    let mut cursor = cursor_at(0, 1);
    let previous = cursor.step_backward();
    assert_eq!(previous, None);
    assert_eq!(place(&cursor), (0, 0));
}

#[test]
fn step_backward_never_leaves_row_zero() {
    let mut cursor = CurrentPosition::new();
    let previous = cursor.step_backward();
    assert_eq!(place(&cursor), (0, 79));
    assert_eq!(previous, Some(cursor_at(0, 79)));
}

#[test]
fn step_backward_from_row_one_column_zero_reaches_row_zero() {
    let mut cursor = cursor_at(1, 0);
    let previous = cursor.step_backward();
    assert_eq!(previous, Some(cursor_at(0, 79)));
}

#[test]
fn step_backward_undoes_step_forward_except_across_the_wrap() {
    for row in 0..SHELL_HEIGHT {
        for col in 0..SHELL_WIDTH {
            let mut cursor = cursor_at(row, col);
            cursor.step_forward();
            cursor.step_backward();
            if (row, col) == (SHELL_HEIGHT - 1, SHELL_WIDTH - 1) {
                assert_eq!(place(&cursor), (0, SHELL_WIDTH - 1));
            } else {
                assert_eq!(place(&cursor), (row, col));
            }
        }
    }
}

#[test]
fn advance_to_new_line_goes_to_the_start_of_the_next_row() {
    let mut cursor = cursor_at(5, 17);
    cursor.advance_to_new_line();
    assert_eq!(place(&cursor), (6, 0));
    cursor.advance_to_new_line();
    assert_eq!(place(&cursor), (7, 0));
}

#[test]
fn advance_to_new_line_wraps_from_the_last_row() {
    let mut cursor = cursor_at(23, 3);
    cursor.advance_to_new_line();
    assert_eq!(place(&cursor), (0, 0));
}

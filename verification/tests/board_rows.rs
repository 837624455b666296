use tetris_core::board::{Board, DISPLAY_HEIGHT, HEIGHT, WIDTH};
use tetris_core::colors::BoardColor;

#[test]
fn dimensions() {
    assert_eq!(WIDTH, 10);
    assert_eq!(HEIGHT, 40);
    assert_eq!(DISPLAY_HEIGHT, 20);
}

#[test]
fn new_board_is_empty() {
    let board = Board::new();
    for r in 0..HEIGHT {
        for c in 0..WIDTH {
            assert_eq!(board.get(r, c), BoardColor::Empty);
        }
    }
}

#[test]
fn occupied_unifies_bounds_and_contents() {
    let mut board = Board::new();
    assert!(board.occupied(-1, 0));
    assert!(board.occupied(0, -1));
    assert!(board.occupied(HEIGHT as i64, 0));
    assert!(board.occupied(0, WIDTH as i64));
    assert!(!board.occupied(0, 0));
    board.set_cell(0, 0, BoardColor::Red);
    assert!(board.occupied(0, 0));
}

#[test]
fn clear_single_full_row_shifts_down() {
    let mut board = Board::new();
    for c in 0..WIDTH {
        board.set_cell(0, c, BoardColor::Green);
    }
    board.set_cell(1, 4, BoardColor::Purple);
    board.set_cell(2, 7, BoardColor::Orange);

    let n = board.clear_full_rows();
    assert_eq!(n, 1);
    // The rows above the cleared one fell by exactly one.
    assert_eq!(board.get(0, 4), BoardColor::Purple);
    assert_eq!(board.get(1, 7), BoardColor::Orange);
    // The vacated top row is empty, and the markers moved away.
    for c in 0..WIDTH {
        assert_eq!(board.get(HEIGHT - 1, c), BoardColor::Empty);
    }
    assert_eq!(board.get(1, 4), BoardColor::Empty);
    assert_eq!(board.get(2, 7), BoardColor::Empty);
}

#[test]
fn clear_counts_separated_rows() {
    let mut board = Board::new();
    for c in 0..WIDTH {
        board.set_cell(0, c, BoardColor::Red);
        board.set_cell(2, c, BoardColor::Yellow);
    }
    board.set_cell(1, 3, BoardColor::Green);
    board.set_cell(3, 6, BoardColor::DarkBlue);

    let n = board.clear_full_rows();
    assert_eq!(n, 2);
    assert_eq!(board.get(0, 3), BoardColor::Green);
    assert_eq!(board.get(1, 6), BoardColor::DarkBlue);
}

#[test]
fn partial_row_is_not_cleared() {
    let mut board = Board::new();
    for c in 0..WIDTH - 1 {
        board.set_cell(5, c, BoardColor::Red);
    }
    let n = board.clear_full_rows();
    assert_eq!(n, 0);
    assert_eq!(board.get(5, 0), BoardColor::Red);
}

#[test]
fn reset_empties_everything() {
    let mut board = Board::new();
    board.set_cell(10, 5, BoardColor::Red);
    board.set_cell(39, 9, BoardColor::Green);
    board.reset();
    for r in 0..HEIGHT {
        for c in 0..WIDTH {
            assert_eq!(board.get(r, c), BoardColor::Empty);
        }
    }
}

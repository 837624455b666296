use tetris_core::board::{HEIGHT, WIDTH};
use tetris_core::colors::BoardColor;
use tetris_core::game::Game;
use tetris_core::piece::Piece;

fn queue(kinds: &[Piece]) -> Vec<Piece> {
    kinds.to_vec()
}

#[test]
fn random_bag_holds_each_kind_once() {
    for _ in 0..20 {
        let bag = Piece::random_bag();
        assert_eq!(bag.len(), 7);
        let all = [Piece::O, Piece::I, Piece::S, Piece::Z, Piece::T, Piece::L, Piece::J];
        for kind in all {
            let count = bag.iter().filter(|p| **p == kind).count();
            assert_eq!(count, 1);
        }
    }
}

#[test]
fn spawn_placement_is_legal_on_empty_board() {
    let game = Game::with_queue(queue(&[Piece::T, Piece::O, Piece::I]), 0);
    assert!(game.try_move((21, 3), 0));
}

#[test]
fn trial_move_rejects_out_of_bounds_and_collisions() {
    let mut game = Game::with_queue(queue(&[Piece::T, Piece::O, Piece::I]), 0);
    // Row -1 would be probed for the lower row of the T mask.
    assert!(!game.try_move((0, 3), 0));
    assert!(game.try_move((1, 3), 0));
    // Column -1 and column 10 are out.
    assert!(!game.try_move((21, -1), 0));
    assert!(game.try_move((21, 7), 0));
    assert!(!game.try_move((21, 8), 0));
    // A locked cell under the mask blocks the placement.
    game.board.set_cell(20, 4, BoardColor::Red);
    assert!(!game.try_move((21, 3), 0));
}

#[test]
fn shifts_stop_at_the_walls() {
    let mut game = Game::with_queue(queue(&[Piece::T, Piece::O, Piece::I]), 0);
    assert_eq!(game.piece_offset, (21, 3));
    game.move_left();
    game.move_left();
    game.move_left();
    assert_eq!(game.piece_offset, (21, 0));
    game.move_left();
    assert_eq!(game.piece_offset, (21, 0));
    for _ in 0..10 {
        game.move_right();
    }
    assert_eq!(game.piece_offset, (21, 7));
}

#[test]
fn four_rotations_restore_piece() {
    let mut game = Game::with_queue(queue(&[Piece::T, Piece::O, Piece::I]), 0);
    for expected in [1u8, 2, 3, 0] {
        game.rotate_right();
        assert_eq!(game.cur_rotation, expected);
        assert_eq!(game.piece_offset, (21, 3));
    }
    for expected in [3u8, 2, 1, 0] {
        game.rotate_left();
        assert_eq!(game.cur_rotation, expected);
        assert_eq!(game.piece_offset, (21, 3));
    }
}

#[test]
fn hard_drop_locks_at_the_bottom() {
    let mut game = Game::with_queue(queue(&[Piece::T, Piece::O, Piece::I]), 0);
    game.hard_drop();
    // The T rests on the floor: anchor row 1, cells on rows 0 and 1.
    assert_eq!(game.board.get(1, 4), BoardColor::Purple);
    assert_eq!(game.board.get(0, 3), BoardColor::Purple);
    assert_eq!(game.board.get(0, 4), BoardColor::Purple);
    assert_eq!(game.board.get(0, 5), BoardColor::Purple);
    // Two points per row fallen: anchor went from 21 to 1.
    assert_eq!(game.score.last_turn_score(), 40);
    // The next piece spawned and hold is armed again.
    assert_eq!(game.cur_piece, Piece::O);
    assert!(game.can_hold);
}

#[test]
fn soft_drop_moves_and_scores_one_point() {
    let mut game = Game::with_queue(queue(&[Piece::T, Piece::O, Piece::I]), 0);
    game.soft_drop();
    assert_eq!(game.piece_offset, (20, 3));
    game.hard_drop();
    // One soft-drop point plus two points per row of the hard drop.
    assert_eq!(game.score.last_turn_score(), 1 + 2 * 19);
}

#[test]
fn gravity_locks_a_blocked_piece() {
    let mut game = Game::with_queue(queue(&[Piece::O, Piece::I, Piece::S]), 0);
    // Drive the O piece to the floor with gravity alone.
    let mut steps = 0;
    while game.move_down() {
        steps += 1;
        assert!(steps < HEIGHT);
    }
    // The piece locked and the next one spawned.
    assert_eq!(game.cur_piece, Piece::I);
    assert_eq!(game.board.get(0, 4), BoardColor::Yellow);
    assert_eq!(game.board.get(1, 5), BoardColor::Yellow);
}

#[test]
fn hold_stores_then_swaps_and_disarms() {
    let mut game = Game::with_queue(queue(&[Piece::T, Piece::O, Piece::I, Piece::S]), 0);
    game.hold();
    assert_eq!(game.hold_piece, Some(Piece::T));
    assert_eq!(game.cur_piece, Piece::O);
    assert!(!game.can_hold);
    // A second hold before any lock is a no-op.
    game.hold();
    assert_eq!(game.hold_piece, Some(Piece::T));
    assert_eq!(game.cur_piece, Piece::O);

    // After a lock the permission returns, and holding now swaps.
    game.hard_drop();
    assert!(game.can_hold);
    let cur = game.cur_piece;
    game.hold();
    assert_eq!(game.hold_piece, Some(cur));
    assert_eq!(game.cur_piece, Piece::T);
    assert_eq!(game.piece_offset, (21, 3));
}

#[test]
fn clearing_a_row_through_lock_scores_single() {
    let mut game = Game::with_queue(queue(&[Piece::I, Piece::O, Piece::S]), 0);
    // Fill the bottom row except the four cells the flat I will cover.
    for c in 0..WIDTH {
        if !(3..7).contains(&c) {
            game.board.set_cell(0, c, BoardColor::Red);
        }
    }
    game.hard_drop();
    assert_eq!(game.score.lines(), 1);
    assert_eq!(game.score.last_turn_text(), "Single");
    // The cleared row collapsed to an empty bottom row.
    for c in 0..WIDTH {
        assert_eq!(game.board.get(0, c), BoardColor::Empty);
    }
}

#[test]
fn full_tspin_is_detected_on_rotation() {
    let mut game = Game::with_queue(queue(&[Piece::T, Piece::O, Piece::I]), 0);
    // Occupy three of the four diagonal corner probes of the anchor.
    game.board.set_cell(21, 3, BoardColor::Red);
    game.board.set_cell(19, 3, BoardColor::Red);
    game.board.set_cell(21, 5, BoardColor::Red);
    game.rotate_right();
    assert_eq!(game.cur_rotation, 1);
    game.hard_drop();
    assert_eq!(game.score.last_turn_text(), "T-Spin");
    // 400 base points for a T-spin without a clear, plus the drop bonus.
    assert_eq!(game.score.last_turn_score(), 400 + 2 * 19);
}

#[test]
fn score_log_records_turns() {
    let mut game = Game::with_queue(queue(&[Piece::T, Piece::O, Piece::I]), 0);
    assert_eq!(game.score_log.len(), 7);
    assert_eq!(game.score_log[0].text, "-");
    game.hard_drop();
    let last = game.score_log.last().unwrap();
    assert_eq!(last.text, game.score.last_turn_text());
    assert!(game.score_log.len() <= 7);
}

#[test]
fn display_grid_shows_piece_and_ghost() {
    let game = Game::with_queue(queue(&[Piece::T, Piece::O, Piece::I]), 0);
    let cells = game.display_cells();
    assert_eq!(cells.len(), HEIGHT);
    assert_eq!(cells[0].len(), WIDTH);
    // The active T at the spawn anchor.
    assert_eq!(cells[21][4], BoardColor::Purple);
    assert_eq!(cells[20][3], BoardColor::Purple);
    assert_eq!(cells[20][4], BoardColor::Purple);
    assert_eq!(cells[20][5], BoardColor::Purple);
    // Its ghost at the floor.
    assert_eq!(cells[1][4], BoardColor::Shadow);
    assert_eq!(cells[0][3], BoardColor::Shadow);
    assert_eq!(cells[0][4], BoardColor::Shadow);
    assert_eq!(cells[0][5], BoardColor::Shadow);
    // An unrelated cell stays empty.
    assert_eq!(cells[10][0], BoardColor::Empty);
}

/// Hard-drop pieces at the spawn column until the spawn placement
/// collides; no piece ever fills columns 0..2 or 7..9, so no row clears
/// and the stack must reach the spawn row. Returns the score recorded
/// just before the losing lock.
fn drop_until_lost(game: &mut Game) -> u32 {
    for _ in 0..40 {
        let before = game.score.score();
        game.hard_drop();
        if before > 0 && game.score.score() == 0 {
            return before;
        }
    }
    panic!("the stack never reached the spawn row");
}

#[test]
fn losing_resets_board_and_banks_high_score() {
    let mut game = Game::with_queue(queue(&[Piece::I; 9]), 0);
    let before = drop_until_lost(&mut game);
    // The lose condition fired: the board is empty again, the level
    // state reset, and the run's score became the high score.
    for r in 0..HEIGHT {
        for c in 0..WIDTH {
            assert_eq!(game.board.get(r, c), BoardColor::Empty);
        }
    }
    assert_eq!(game.score.score(), 0);
    assert_eq!(game.score.level(), 1);
    assert_eq!(game.score.lines(), 0);
    assert!(game.score.high_score() >= before);
    assert!(game.score.high_score() > 0);
}

#[test]
fn losing_keeps_a_better_stored_high_score() {
    let mut game = Game::with_queue(queue(&[Piece::I; 9]), 1_000_000);
    let _ = drop_until_lost(&mut game);
    assert_eq!(game.score.score(), 0);
    assert_eq!(game.score.high_score(), 1_000_000);
}

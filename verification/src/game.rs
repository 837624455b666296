use vstd::prelude::*;

use crate::board::{cleared_grid, empty_grid, grid_occupied, live_rows, Board, HEIGHT, WIDTH};
use crate::colors::BoardColor;
use crate::level::advance;
use crate::piece::{is_full_bag, lemma_shape_nonempty, Piece};
use crate::score::{
    end_turn_points, line_credit, turn_color, turn_text, Lines, Score, ScoreEvent, TSpins,
    TextColor,
};

verus! {

broadcast use vstd::string::group_string_axioms;

/// Row of the spawn anchor, inside the hidden buffer above the visible area.
pub const SPAWN_ROW: i32 = 21;

/// Column of the spawn anchor.
pub const SPAWN_COL: i32 = 3;

/// One line of the running score log: a turn description and its display
/// color.
pub struct LogEntry {
    pub text: String,
    pub color: TextColor,
}

/// The whole game: board, scoring, piece supply, and the active piece's
/// position and rotation, plus the display log of recent turns.
pub struct Game {
    pub board: Board,
    pub score: Score,
    pub piece_bag: Vec<Piece>,
    pub cur_piece: Piece,
    pub next_piece: Piece,
    pub hold_piece: Option<Piece>,
    pub can_hold: bool,
    pub cur_rotation: u8,
    pub piece_offset: (i32, i32),
    pub ghost_offset: (i32, i32),
    pub score_log: Vec<LogEntry>,
}

/// The placement is legal: every occupied cell of the piece's mask, laid
/// with its anchor at (row, col), lands on an in-bounds Empty cell. Mask
/// cell (i, j) sits i rows below and j columns right of the anchor.
pub open spec fn fits(g: Seq<Seq<BoardColor>>, p: Piece, rot: int, row: int, col: int) -> bool {
    forall|i: int, j: int|
        0 <= i < 4 && 0 <= j < 4 && p.shape_cell_spec(rot, i, j) ==> !grid_occupied(
            g,
            row - i,
            col + j,
        )
}

/// A legal anchor stays within a narrow band around the grid.
pub proof fn lemma_fits_bounds(g: Seq<Seq<BoardColor>>, p: Piece, rot: int, row: int, col: int)
    requires
        0 <= rot < 4,
        fits(g, p, rot, row, col),
    ensures
        0 <= row <= HEIGHT + 2,
        -3 <= col < WIDTH,
{
    lemma_shape_nonempty(p, rot);
    let (i, j) = choose|i: int, j: int|
        0 <= i < 4 && 0 <= j < 4 && p.shape_cell_spec(rot, i, j);
    assert(!grid_occupied(g, row - i, col + j));
}

/// Cell (r, c) of the grid is covered by the piece's mask when the anchor
/// stands at (row, col).
pub open spec fn covers(p: Piece, rot: int, row: int, col: int, r: int, c: int) -> bool {
    exists|i: int, j: int|
        0 <= i < 4 && 0 <= j < 4 && p.shape_cell_spec(rot, i, j) && r == row - i && c == col + j
}

/// The grid with the piece's color stamped over every covered cell.
pub open spec fn stamped(
    g: Seq<Seq<BoardColor>>,
    p: Piece,
    rot: int,
    row: int,
    col: int,
) -> Seq<Seq<BoardColor>> {
    Seq::new(
        g.len(),
        |r: int|
            Seq::new(
                g[r].len(),
                |c: int|
                    if covers(p, rot, row, col, r, c) {
                        p.color_spec()
                    } else {
                        g[r][c]
                    },
            ),
    )
}

/// The line-clear classification of a cleared-row count.
pub open spec fn clear_kind(n: int) -> Lines {
    if n == 1 {
        Lines::Single
    } else if n == 2 {
        Lines::Double
    } else if n == 3 {
        Lines::Triple
    } else if n == 4 {
        Lines::Tetris
    } else {
        Lines::NoClear
    }
}

/// The queue from which the next piece is drawn: topped up with one full
/// shuffled bag when it has run below seven entries.
pub open spec fn refilled(bag: Seq<Piece>, q: Seq<Piece>) -> bool {
    if bag.len() < 7 {
        exists|b: Seq<Piece>| is_full_bag(b) && q == bag + b
    } else {
        q == bag
    }
}

/// The scoring state after a turn ends with line-clear kind `l`: the turn
/// is scored and recorded, the line credit is fed to the level tracker,
/// and the accumulator resets.
pub open spec fn score_after_turn(pre: Score, l: Lines, post: Score) -> bool {
    let turn = (pre.turn.0, l);
    let points = end_turn_points(turn, pre.last_turn, pre.level.level as int, pre.turn_score as int);
    &&& post.score == pre.score + points
    &&& post.last_turn_score == points
    &&& post.turn_score == 0
    &&& post.turn == (TSpins::NoSpin, Lines::NoClear)
    &&& post.last_turn == turn
    &&& post.last_turn_text@ == turn_text(turn, pre.last_turn)
    &&& post.text_color == turn_color(turn, pre.last_turn)
    &&& post.high_score == pre.high_score
    &&& post.level.lines == pre.level.lines + line_credit(l)
    &&& (post.level.level as int, post.level.lines_goal as int) == advance(
        pre.level.level as int,
        pre.level.lines_goal as int,
        pre.level.lines + line_credit(l),
    )
}

/// The scoring state after the lose condition: the high score takes the
/// run's score if beaten, score and level state reset, the turn record
/// stays for display.
pub open spec fn saved_reset(pre: Score, post: Score) -> bool {
    &&& post.high_score == if pre.score > pre.high_score {
        pre.score
    } else {
        pre.high_score
    }
    &&& post.score == 0
    &&& post.level.level == 1
    &&& post.level.lines == 0
    &&& post.level.lines_goal == 5
    &&& post.turn == pre.turn
    &&& post.turn_score == pre.turn_score
    &&& post.last_turn == pre.last_turn
    &&& post.last_turn_score == pre.last_turn_score
    &&& post.last_turn_text == pre.last_turn_text
    &&& post.text_color == pre.text_color
}

/// The score log after a turn: at most the six most recent lines are kept
/// and the new turn's description is appended.
pub open spec fn log_shifted(
    pre: Seq<LogEntry>,
    post: Seq<LogEntry>,
    text: Seq<char>,
    color: TextColor,
) -> bool {
    let kept = if pre.len() >= 7 {
        pre.skip(pre.len() - 6)
    } else {
        pre
    };
    &&& post.len() == kept.len() + 1
    &&& post.take(kept.len() as int) == kept
    &&& post.last().text@ == text
    &&& post.last().color == color
}

/// The whole effect of locking the active piece from state `pre`: its
/// cells are stamped into the board, full rows are cleared and scored as
/// one turn, the next piece spawns from the (possibly refilled) queue,
/// and, when the spawn placement collides, the board and the running score
/// reset (the lose condition). Hold becomes available again and the score
/// log gains the turn's description.
pub open spec fn lock_transition(pre: Game, post: Game) -> bool {
    let g1 = stamped(
        pre.board@,
        pre.cur_piece,
        pre.cur_rotation as int,
        pre.piece_offset.0 as int,
        pre.piece_offset.1 as int,
    );
    let n = HEIGHT - live_rows(g1).len();
    let l = clear_kind(n as int);
    let g2 = cleared_grid(g1);
    let lose = !fits(g2, pre.next_piece, 0, SPAWN_ROW as int, SPAWN_COL as int);
    &&& post.cur_piece == pre.next_piece
    &&& exists|q: Seq<Piece>|
        #![auto]
        refilled(pre.piece_bag@, q) && q.len() >= 1 && post.next_piece == q[0] && post.piece_bag@
            == q.drop_first()
    &&& post.cur_rotation == 0
    &&& post.piece_offset == (SPAWN_ROW, SPAWN_COL)
    &&& post.board@ == if lose {
        empty_grid()
    } else {
        g2
    }
    &&& exists|mid: Score|
        #![auto]
        score_after_turn(pre.score, l, mid) && (if lose {
            saved_reset(mid, post.score)
        } else {
            post.score == mid
        }) && log_shifted(pre.score_log@, post.score_log@, mid.last_turn_text@, mid.text_color)
    &&& post.hold_piece == pre.hold_piece
    &&& post.can_hold == true
    &&& post.ghost_ok()
}

/// Rotation index one step clockwise.
pub open spec fn rot_cw(r: int) -> int {
    (r + 1) % 4
}

/// Rotation index one step counter-clockwise.
pub open spec fn rot_ccw(r: int) -> int {
    (r + 3) % 4
}

/// Rotating four times in the same direction restores the rotation index;
/// together with the rotation contract, which keeps the anchor fixed
/// whenever the zero-offset placement is legal (no kick fires), four such
/// rotations restore the piece exactly.
pub proof fn lemma_four_rotations_restore(r: int)
    requires
        0 <= r < 4,
    ensures
        rot_cw(rot_cw(rot_cw(rot_cw(r)))) == r,
        rot_ccw(rot_ccw(rot_ccw(rot_ccw(r)))) == r,
{
}

/// How many of the four diagonal corner probes around the anchor are
/// occupied; the probes are the same four relative cells whatever the
/// rotation state.
pub open spec fn tspin_corner_count(g: Seq<Seq<BoardColor>>, row: int, col: int) -> int {
    (if grid_occupied(g, row, col) {
        1int
    } else {
        0int
    }) + (if grid_occupied(g, row - 2, col) {
        1int
    } else {
        0int
    }) + (if grid_occupied(g, row, col + 2) {
        1int
    } else {
        0int
    }) + (if grid_occupied(g, row - 2, col + 2) {
        1int
    } else {
        0int
    })
}

/// A rotation lands a T-spin when at least three corner probes are
/// occupied.
pub open spec fn is_tspin_at(g: Seq<Seq<BoardColor>>, row: int, col: int) -> bool {
    tspin_corner_count(g, row, col) >= 3
}

/// The score either took one T-spin event of the given kind or is
/// untouched.
pub open spec fn spin_event(pre: Score, post: Score, fired: bool, kind: TSpins) -> bool {
    if fired {
        post == (Score { turn: (kind, pre.turn.1), ..pre })
    } else {
        post == pre
    }
}

/// Row of the anchor after wall-kick candidate k.
pub open spec fn kick_row(p: Piece, from: int, to: int, k: int, row: int) -> int {
    row + p.kick_spec(from, to, k).1
}

/// Column of the anchor after wall-kick candidate k.
pub open spec fn kick_col(p: Piece, from: int, to: int, k: int, col: int) -> int {
    col + p.kick_spec(from, to, k).0
}

/// The effect of a rotation request toward `target`: the zero-offset
/// placement commits in place (a full T-spin if the piece is a T and the
/// corners qualify); otherwise the first legal wall-kick candidate in
/// table order commits (a mini T-spin then); otherwise nothing changes.
/// The ghost anchor is not touched here.
pub open spec fn rotate_commit(pre: Game, post: Game, target: int) -> bool {
    let g = pre.board@;
    let p = pre.cur_piece;
    let row = pre.piece_offset.0 as int;
    let col = pre.piece_offset.1 as int;
    let from = pre.cur_rotation as int;
    &&& post == (Game {
        cur_rotation: post.cur_rotation,
        piece_offset: post.piece_offset,
        score: post.score,
        ..pre
    })
    &&& if fits(g, p, target, row, col) {
        &&& post.cur_rotation == target
        &&& post.piece_offset == pre.piece_offset
        &&& spin_event(pre.score, post.score, p is T && is_tspin_at(g, row, col), TSpins::TSpin)
    } else {
        ||| exists|k: int|
            #![auto]
            {
                &&& 0 <= k < 4
                &&& (forall|m: int|
                    0 <= m < k ==> !fits(
                        g,
                        p,
                        target,
                        kick_row(p, from, target, m, row),
                        kick_col(p, from, target, m, col),
                    ))
                &&& fits(
                    g,
                    p,
                    target,
                    kick_row(p, from, target, k, row),
                    kick_col(p, from, target, k, col),
                )
                &&& post.cur_rotation == target
                &&& post.piece_offset.0 == kick_row(p, from, target, k, row)
                &&& post.piece_offset.1 == kick_col(p, from, target, k, col)
                &&& spin_event(
                    pre.score,
                    post.score,
                    p is T && is_tspin_at(
                        g,
                        kick_row(p, from, target, k, row),
                        kick_col(p, from, target, k, col),
                    ),
                    TSpins::MiniTSpin,
                )
            }
        ||| {
            &&& (forall|m: int|
                0 <= m < 4 ==> !fits(
                    g,
                    p,
                    target,
                    kick_row(p, from, target, m, row),
                    kick_col(p, from, target, m, col),
                ))
            &&& post.cur_rotation == pre.cur_rotation
            &&& post.piece_offset == pre.piece_offset
            &&& post.score == pre.score
        }
    }
}

/// The effect of a left or right shift by `dc` columns: the anchor moves
/// iff the shifted placement is legal, and the ghost is recomputed.
pub open spec fn shift_post(pre: Game, post: Game, dc: int) -> bool {
    &&& post.piece_offset.0 == pre.piece_offset.0
    &&& post.piece_offset.1 == if fits(
        pre.board@,
        pre.cur_piece,
        pre.cur_rotation as int,
        pre.piece_offset.0 as int,
        pre.piece_offset.1 + dc,
    ) {
        pre.piece_offset.1 + dc
    } else {
        pre.piece_offset.1 as int
    }
    &&& post == (Game {
        piece_offset: post.piece_offset,
        ghost_offset: post.ghost_offset,
        ..pre
    })
    &&& post.ghost_ok()
}

/// The effect of one gravity step: the piece falls one row when it can,
/// and locks where it stands when it cannot.
pub open spec fn move_down_post(pre: Game, post: Game, moved: bool) -> bool {
    &&& moved == fits(
        pre.board@,
        pre.cur_piece,
        pre.cur_rotation as int,
        pre.piece_offset.0 - 1,
        pre.piece_offset.1 as int,
    )
    &&& if moved {
        post == (Game {
            piece_offset: ((pre.piece_offset.0 - 1) as i32, pre.piece_offset.1),
            ..pre
        })
    } else {
        lock_transition(pre, post)
    }
}

/// The effect of a soft drop: a gravity step, plus one bonus point when
/// the piece actually moved.
pub open spec fn soft_drop_post(pre: Game, post: Game) -> bool {
    let moved = fits(
        pre.board@,
        pre.cur_piece,
        pre.cur_rotation as int,
        pre.piece_offset.0 - 1,
        pre.piece_offset.1 as int,
    );
    if moved {
        post == (Game {
            piece_offset: ((pre.piece_offset.0 - 1) as i32, pre.piece_offset.1),
            score: (Score { turn_score: (pre.score.turn_score + 1) as u32, ..pre.score }),
            ..pre
        })
    } else {
        lock_transition(pre, post)
    }
}

/// The effect of a hard drop: two points per row of fall are banked, the
/// anchor jumps to the ghost position, and the piece locks there.
pub open spec fn hard_drop_post(pre: Game, post: Game) -> bool {
    lock_transition(
        (Game {
            piece_offset: pre.ghost_offset,
            score: (Score {
                turn_score: (pre.score.turn_score + 2 * (pre.piece_offset.0
                    - pre.ghost_offset.0)) as u32,
                ..pre.score
            }),
            ..pre
        }),
        post,
    )
}

/// The effect of a hold request. Without the hold permission it is a
/// no-op. Otherwise the current kind goes to the hold slot; the piece to
/// play comes from the slot if one was held, else it is drawn from the
/// queue; the fresh piece spawns (with the usual lose condition), and
/// holding is disarmed until the next lock.
pub open spec fn hold_post(pre: Game, post: Game) -> bool {
    if !pre.can_hold {
        post == pre
    } else {
        let newp = match pre.hold_piece {
            Option::Some(p) => p,
            Option::None => pre.next_piece,
        };
        let lose = !fits(pre.board@, newp, 0, SPAWN_ROW as int, SPAWN_COL as int);
        &&& post.hold_piece == Option::Some(pre.cur_piece)
        &&& post.cur_piece == newp
        &&& post.can_hold == false
        &&& post.cur_rotation == 0
        &&& post.piece_offset == (SPAWN_ROW, SPAWN_COL)
        &&& post.board@ == if lose {
            empty_grid()
        } else {
            pre.board@
        }
        &&& if lose {
            saved_reset(pre.score, post.score)
        } else {
            post.score == pre.score
        }
        &&& (pre.hold_piece is Some ==> post.next_piece == pre.next_piece && post.piece_bag@
            == pre.piece_bag@)
        &&& (pre.hold_piece is None ==> exists|q: Seq<Piece>|
            #![auto]
            refilled(pre.piece_bag@, q) && q.len() >= 1 && post.next_piece == q[0]
                && post.piece_bag@ == q.drop_first())
        &&& post.score_log == pre.score_log
        &&& post.ghost_ok()
    }
}

/// A freshly initialized game over the given starting queue: an empty
/// board, a zeroed score carrying the stored high score, the first two
/// queue entries as current and next piece, and a placeholder score log.
pub open spec fn initialized_from(g: Game, queue: Seq<Piece>, high_score: u32) -> bool {
    &&& g.board@ == empty_grid()
    &&& g.score.score == 0
    &&& g.score.high_score == high_score
    &&& g.score.turn_score == 0
    &&& g.score.last_turn_score == 0
    &&& g.score.turn == (TSpins::NoSpin, Lines::NoClear)
    &&& g.score.last_turn == (TSpins::NoSpin, Lines::NoClear)
    &&& g.score.level.level == 1
    &&& g.score.level.lines == 0
    &&& g.score.level.lines_goal == 5
    &&& g.cur_piece == queue[0]
    &&& g.next_piece == queue[1]
    &&& g.piece_bag@ == queue.skip(2)
    &&& g.hold_piece is None
    &&& g.can_hold == true
    &&& g.cur_rotation == 0
    &&& g.piece_offset == (SPAWN_ROW, SPAWN_COL)
    &&& g.score_log@.len() == 7
    &&& forall|i: int|
        0 <= i < 7 ==> (#[trigger] g.score_log@[i]).text@ == "-"@ && g.score_log@[i].color
            == TextColor::Gray
    &&& g.ghost_ok()
}

/// The cell colors handed to the renderer: the board overlaid first with
/// the ghost piece in Shadow, then with the active piece in its color.
pub open spec fn display_grid(g: Game) -> Seq<Seq<BoardColor>> {
    Seq::new(
        HEIGHT as nat,
        |r: int|
            Seq::new(
                WIDTH as nat,
                |c: int|
                    if covers(
                        g.cur_piece,
                        g.cur_rotation as int,
                        g.piece_offset.0 as int,
                        g.piece_offset.1 as int,
                        r,
                        c,
                    ) {
                        g.cur_piece.color_spec()
                    } else if covers(
                        g.cur_piece,
                        g.cur_rotation as int,
                        g.ghost_offset.0 as int,
                        g.ghost_offset.1 as int,
                        r,
                        c,
                    ) {
                        BoardColor::Shadow
                    } else {
                        g.board@[r][c]
                    },
            ),
    )
}

/// Any piece fits at the spawn anchor of an empty board.
pub proof fn lemma_spawn_fits_empty(p: Piece)
    ensures
        fits(empty_grid(), p, 0, SPAWN_ROW as int, SPAWN_COL as int),
{
    assert forall|i: int, j: int|
        0 <= i < 4 && 0 <= j < 4 && p.shape_cell_spec(0, i, j) implies !grid_occupied(
        empty_grid(),
        SPAWN_ROW - i,
        SPAWN_COL + j,
    ) by {
        assert(empty_grid()[SPAWN_ROW - i][SPAWN_COL + j] == BoardColor::Empty);
    }
}

/// Mask cells before linear index k, used to walk the stamping loop.
spec fn covers_before(p: Piece, rot: int, row: int, col: int, r: int, c: int, k: int) -> bool {
    exists|i: int, j: int|
        0 <= i < 4 && 0 <= j < 4 && i * 4 + j < k && p.shape_cell_spec(rot, i, j) && r == row - i
            && c == col + j
}

impl Game {
    /// The active piece's placement, as the collision predicate sees it.
    pub open spec fn cur_fits(self, row: int, col: int, rot: int) -> bool {
        fits(self.board@, self.cur_piece, rot, row, col)
    }

    /// The ghost anchor: same column as the piece, at the lowest legal row
    /// at or below it.
    pub open spec fn ghost_ok(self) -> bool {
        &&& self.ghost_offset.1 == self.piece_offset.1
        &&& self.ghost_offset.0 <= self.piece_offset.0
        &&& self.cur_fits(self.ghost_offset.0 as int, self.ghost_offset.1 as int, self.cur_rotation as int)
        &&& !self.cur_fits(self.ghost_offset.0 - 1, self.ghost_offset.1 as int, self.cur_rotation as int)
    }

    pub open spec fn wf(self) -> bool {
        &&& self.board.wf()
        &&& self.score.wf()
        &&& self.score.turn.1 is NoClear
        &&& self.cur_rotation < 4
        &&& self.cur_fits(
            self.piece_offset.0 as int,
            self.piece_offset.1 as int,
            self.cur_rotation as int,
        )
        &&& self.ghost_ok()
        &&& self.piece_bag@.len() >= 1
        &&& self.score_log@.len() <= 7
    }

    /// Room in the counters for the largest turn any single piece can
    /// score, so no addition in the scoring path can overflow.
    pub open spec fn turn_headroom(self) -> bool {
        &&& self.score.score + self.score.turn_score + 37000 <= u32::MAX
        &&& self.score.level.lines + 8 <= u32::MAX
    }

    /// Whether the piece may stand at the probed anchor and rotation:
    /// false exactly when some occupied mask cell would leave the grid or
    /// land on a non-Empty cell.
    pub fn try_move(&self, offset: (i32, i32), rotation: u8) -> (legal: bool)
        requires
            self.board.wf(),
            rotation < 4,
        ensures
            legal == self.cur_fits(offset.0 as int, offset.1 as int, rotation as int),
    {
        let mut i: u8 = 0;
        while i < 4
            invariant
                self.board.wf(),
                rotation < 4,
                i <= 4,
                forall|a: int, b: int|
                    0 <= a < i && 0 <= b < 4 && self.cur_piece.shape_cell_spec(
                        rotation as int,
                        a,
                        b,
                    ) ==> !grid_occupied(self.board@, offset.0 - a, offset.1 + b),
            decreases 4 - i,
        {
            let mut j: u8 = 0;
            while j < 4
                invariant
                    self.board.wf(),
                    rotation < 4,
                    i < 4,
                    j <= 4,
                    forall|a: int, b: int|
                        0 <= a < i && 0 <= b < 4 && self.cur_piece.shape_cell_spec(
                            rotation as int,
                            a,
                            b,
                        ) ==> !grid_occupied(self.board@, offset.0 - a, offset.1 + b),
                    forall|b: int|
                        0 <= b < j && self.cur_piece.shape_cell_spec(rotation as int, i as int, b)
                            ==> !grid_occupied(self.board@, offset.0 - i, offset.1 + b),
                decreases 4 - j,
            {
                if self.cur_piece.shape_cell(rotation, i, j) {
                    let r = offset.0 as i64 - i as i64;
                    let c = offset.1 as i64 + j as i64;
                    if self.board.occupied(r, c) {
                        return false;
                    }
                }
                j = j + 1;
            }
            i = i + 1;
        }
        true
    }

    /// Recompute the ghost anchor: walk the piece down one row at a time
    /// until the next row down no longer fits.
    fn update_ghost_position(&mut self)
        requires
            old(self).board.wf(),
            old(self).cur_rotation < 4,
            old(self).cur_fits(
                old(self).piece_offset.0 as int,
                old(self).piece_offset.1 as int,
                old(self).cur_rotation as int,
            ),
        ensures
            *final(self) == (Game { ghost_offset: final(self).ghost_offset, ..*old(self) }),
            final(self).ghost_ok(),
    {
        let mut ghost_row: i32 = self.piece_offset.0;
        proof {
            lemma_fits_bounds(
                self.board@,
                self.cur_piece,
                self.cur_rotation as int,
                ghost_row as int,
                self.piece_offset.1 as int,
            );
        }
        while self.try_move((ghost_row - 1, self.piece_offset.1), self.cur_rotation)
            invariant
                self.board.wf(),
                self.cur_rotation < 4,
                ghost_row <= self.piece_offset.0,
                0 <= ghost_row,
                self.cur_fits(
                    ghost_row as int,
                    self.piece_offset.1 as int,
                    self.cur_rotation as int,
                ),
            decreases ghost_row,
        {
            ghost_row = ghost_row - 1;
            proof {
                lemma_fits_bounds(
                    self.board@,
                    self.cur_piece,
                    self.cur_rotation as int,
                    ghost_row as int,
                    self.piece_offset.1 as int,
                );
            }
        }
        self.ghost_offset = (ghost_row, self.piece_offset.1);
    }

    /// Shift the piece one column left if that is legal; always recompute
    /// the ghost.
    pub fn move_left(&mut self)
        requires
            old(self).wf(),
        ensures
            final(self).wf(),
            shift_post(*old(self), *final(self), -1),
    {
        proof {
            lemma_fits_bounds(
                self.board@,
                self.cur_piece,
                self.cur_rotation as int,
                self.piece_offset.0 as int,
                self.piece_offset.1 as int,
            );
        }
        let new_offset = (self.piece_offset.0, self.piece_offset.1 - 1);
        if self.try_move(new_offset, self.cur_rotation) {
            self.piece_offset = new_offset;
        }
        self.update_ghost_position();
    }

    /// Shift the piece one column right if that is legal; always recompute
    /// the ghost.
    pub fn move_right(&mut self)
        requires
            old(self).wf(),
        ensures
            final(self).wf(),
            shift_post(*old(self), *final(self), 1),
    {
        proof {
            lemma_fits_bounds(
                self.board@,
                self.cur_piece,
                self.cur_rotation as int,
                self.piece_offset.0 as int,
                self.piece_offset.1 as int,
            );
        }
        let new_offset = (self.piece_offset.0, self.piece_offset.1 + 1);
        if self.try_move(new_offset, self.cur_rotation) {
            self.piece_offset = new_offset;
        }
        self.update_ghost_position();
    }

    /// Stamp every occupied cell of the active piece into the board at the
    /// piece's color.
    fn stamp_piece(&mut self)
        requires
            old(self).board.wf(),
            old(self).cur_rotation < 4,
            old(self).cur_fits(
                old(self).piece_offset.0 as int,
                old(self).piece_offset.1 as int,
                old(self).cur_rotation as int,
            ),
        ensures
            *final(self) == (Game { board: final(self).board, ..*old(self) }),
            final(self).board.wf(),
            final(self).board@ == stamped(
                old(self).board@,
                old(self).cur_piece,
                old(self).cur_rotation as int,
                old(self).piece_offset.0 as int,
                old(self).piece_offset.1 as int,
            ),
    {
        let ghost g0 = self.board@;
        let ghost p = self.cur_piece;
        let ghost rot = self.cur_rotation as int;
        let ghost row = self.piece_offset.0 as int;
        let ghost col = self.piece_offset.1 as int;
        let color = self.cur_piece.color();
        let mut k: u8 = 0;
        while k < 16
            invariant
                self.board.wf(),
                self.cur_rotation < 4,
                k <= 16,
                self.cur_piece == p,
                self.cur_rotation as int == rot,
                self.piece_offset.0 as int == row,
                self.piece_offset.1 as int == col,
                color == p.color_spec(),
                fits(g0, p, rot, row, col),
                self.board@.len() == g0.len(),
                forall|r: int| 0 <= r < g0.len() ==> (#[trigger] self.board@[r]).len()
                    == g0[r].len(),
                forall|r: int, c: int|
                    0 <= r < g0.len() && 0 <= c < g0[r].len() ==> #[trigger] self.board@[r][c]
                        == (if covers_before(p, rot, row, col, r, c, k as int) {
                        p.color_spec()
                    } else {
                        g0[r][c]
                    }),
                self.score == old(self).score,
                self.piece_bag == old(self).piece_bag,
                self.cur_piece == old(self).cur_piece,
                self.next_piece == old(self).next_piece,
                self.hold_piece == old(self).hold_piece,
                self.can_hold == old(self).can_hold,
                self.cur_rotation == old(self).cur_rotation,
                self.piece_offset == old(self).piece_offset,
                self.ghost_offset == old(self).ghost_offset,
                self.score_log == old(self).score_log,
            decreases 16 - k,
        {
            let i = k / 4;
            let j = k % 4;
            if self.cur_piece.shape_cell(self.cur_rotation, i, j) {
                proof {
                    assert(!grid_occupied(g0, row - i, col + j));
                }
                let tr = (self.piece_offset.0 - i as i32) as usize;
                let tc = (self.piece_offset.1 + j as i32) as usize;
                self.board.set_cell(tr, tc, color);
                proof {
                    assert forall|r: int, c: int|
                        0 <= r < g0.len() && 0 <= c < g0[r].len() implies #[trigger] self.board@[r][c]
                        == (if covers_before(p, rot, row, col, r, c, k + 1) {
                        p.color_spec()
                    } else {
                        g0[r][c]
                    }) by {
                        if r == row - i && c == col + j {
                            assert(covers_before(p, rot, row, col, r, c, k + 1)) by {
                                assert(0 <= i < 4 && 0 <= j < 4 && i * 4 + j < k + 1
                                    && p.shape_cell_spec(rot, i as int, j as int));
                            }
                        } else {
                            if covers_before(p, rot, row, col, r, c, k + 1) {
                                let (a, b) = choose|a: int, b: int|
                                    0 <= a < 4 && 0 <= b < 4 && a * 4 + b < k + 1
                                        && p.shape_cell_spec(rot, a, b) && r == row - a && c == col
                                        + b;
                                if a * 4 + b == k {
                                    assert(a == i && b == j);
                                    assert(false);
                                } else {
                                    assert(covers_before(p, rot, row, col, r, c, k as int));
                                }
                            }
                            if covers_before(p, rot, row, col, r, c, k as int) {
                                assert(covers_before(p, rot, row, col, r, c, k + 1));
                            }
                        }
                    }
                }
            } else {
                proof {
                    assert forall|r: int, c: int|
                        0 <= r < g0.len() && 0 <= c < g0[r].len() implies #[trigger] self.board@[r][c]
                        == (if covers_before(p, rot, row, col, r, c, k + 1) {
                        p.color_spec()
                    } else {
                        g0[r][c]
                    }) by {
                        if covers_before(p, rot, row, col, r, c, k + 1) {
                            let (a, b) = choose|a: int, b: int|
                                0 <= a < 4 && 0 <= b < 4 && a * 4 + b < k + 1
                                    && p.shape_cell_spec(rot, a, b) && r == row - a && c == col + b;
                            if a * 4 + b == k {
                                assert(a == i && b == j);
                                assert(false);
                            } else {
                                assert(covers_before(p, rot, row, col, r, c, k as int));
                            }
                        }
                        if covers_before(p, rot, row, col, r, c, k as int) {
                            assert(covers_before(p, rot, row, col, r, c, k + 1));
                        }
                    }
                }
            }
            k = k + 1;
        }
        proof {
            assert forall|r: int, c: int|
                0 <= r < g0.len() && 0 <= c < g0[r].len() implies (covers_before(
                p,
                rot,
                row,
                col,
                r,
                c,
                16,
            ) == covers(p, rot, row, col, r, c)) by {
                if covers(p, rot, row, col, r, c) {
                    let (a, b) = choose|a: int, b: int|
                        0 <= a < 4 && 0 <= b < 4 && p.shape_cell_spec(rot, a, b) && r == row - a
                            && c == col + b;
                    assert(a * 4 + b < 16);
                    assert(covers_before(p, rot, row, col, r, c, 16));
                }
            }
            assert(self.board@ =~~= stamped(g0, p, rot, row, col));
        }
    }

    /// Clear full rows and flush the turn to the score engine: the cleared
    /// count becomes the turn's line-clear kind, then the turn ends.
    fn clear_lines(&mut self)
        requires
            old(self).board.wf(),
            old(self).score.wf(),
            old(self).score.turn.1 is NoClear,
            old(self).score.score + old(self).score.turn_score + 36800 <= u32::MAX,
            old(self).score.level.lines + 8 <= u32::MAX,
        ensures
            *final(self) == (Game {
                board: final(self).board,
                score: final(self).score,
                ..*old(self)
            }),
            final(self).board.wf(),
            final(self).score.wf(),
            final(self).score.turn.1 is NoClear,
            final(self).board@ == cleared_grid(old(self).board@),
            score_after_turn(
                old(self).score,
                clear_kind(HEIGHT - live_rows(old(self).board@).len()),
                final(self).score,
            ),
    {
        let n = self.board.clear_full_rows();
        let ghost l = clear_kind(HEIGHT - live_rows(old(self).board@).len());
        if n == 1 {
            self.score.do_event(ScoreEvent::LineClear(Lines::Single));
        } else if n == 2 {
            self.score.do_event(ScoreEvent::LineClear(Lines::Double));
        } else if n == 3 {
            self.score.do_event(ScoreEvent::LineClear(Lines::Triple));
        } else if n == 4 {
            self.score.do_event(ScoreEvent::LineClear(Lines::Tetris));
        }
        proof {
            assert(self.score.turn == (old(self).score.turn.0, l));
            lemma_end_turn_points_bound(
                self.score.turn,
                self.score.last_turn,
                self.score.level.level as int,
                self.score.turn_score as int,
            );
        }
        self.score.do_event(ScoreEvent::EndTurn);
    }

    /// Reset the active piece to the spawn anchor, drawing the next kind
    /// from the queue when asked; a colliding spawn is the lose condition,
    /// which resets the board and banks the score.
    fn reset_piece(&mut self, use_next_piece: bool)
        requires
            old(self).board.wf(),
            old(self).score.wf(),
            old(self).piece_bag@.len() >= 1,
        ensures
            final(self).board.wf(),
            final(self).score.wf(),
            final(self).piece_bag@.len() >= 1,
            final(self).cur_piece == if use_next_piece {
                old(self).next_piece
            } else {
                old(self).cur_piece
            },
            use_next_piece ==> exists|q: Seq<Piece>|
                #![auto]
                refilled(old(self).piece_bag@, q) && q.len() >= 1 && final(self).next_piece == q[0]
                    && final(self).piece_bag@ == q.drop_first(),
            !use_next_piece ==> final(self).next_piece == old(self).next_piece
                && final(self).piece_bag@ == old(self).piece_bag@,
            final(self).cur_rotation == 0,
            final(self).piece_offset == (SPAWN_ROW, SPAWN_COL),
            ({
                let newp = if use_next_piece {
                    old(self).next_piece
                } else {
                    old(self).cur_piece
                };
                let lose = !fits(old(self).board@, newp, 0, SPAWN_ROW as int, SPAWN_COL as int);
                &&& final(self).board@ == if lose {
                    empty_grid()
                } else {
                    old(self).board@
                }
                &&& if lose {
                    saved_reset(old(self).score, final(self).score)
                } else {
                    final(self).score == old(self).score
                }
            }),
            final(self).hold_piece == old(self).hold_piece,
            final(self).can_hold == old(self).can_hold,
            final(self).score_log == old(self).score_log,
            final(self).ghost_ok(),
            final(self).cur_fits(SPAWN_ROW as int, SPAWN_COL as int, 0),
    {
        if use_next_piece {
            self.cur_piece = self.next_piece;
            if self.piece_bag.len() < 7 {
                let ghost bag0 = self.piece_bag@;
                let mut fresh = Piece::random_bag();
                let ghost fresh0 = fresh@;
                self.piece_bag.append(&mut fresh);
                proof {
                    assert(refilled(bag0, self.piece_bag@)) by {
                        assert(is_full_bag(fresh0) && self.piece_bag@ == bag0 + fresh0);
                    }
                }
            }
            let ghost q = self.piece_bag@;
            self.next_piece = self.piece_bag.remove(0);
            proof {
                assert(self.next_piece == q[0] && self.piece_bag@ =~= q.drop_first());
            }
        }
        self.piece_offset = (SPAWN_ROW, SPAWN_COL);
        self.cur_rotation = 0;

        // Lose condition: the fresh piece cannot stand at the spawn anchor.
        if !self.try_move(self.piece_offset, self.cur_rotation) {
            self.board.reset();
            self.score.save_and_reset_score();
            proof {
                lemma_spawn_fits_empty(self.cur_piece);
            }
        }
        self.update_ghost_position();
    }

    /// Append the last turn's description to the score log, keeping at
    /// most seven lines.
    fn update_score_log(&mut self)
        ensures
            *final(self) == (Game { score_log: final(self).score_log, ..*old(self) }),
            log_shifted(
                old(self).score_log@,
                final(self).score_log@,
                old(self).score.last_turn_text@,
                old(self).score.text_color,
            ),
            final(self).score_log@.len() <= 7,
    {
        let ghost log0 = self.score_log@;
        proof {
            assert(log0.skip(0) =~= log0);
        }
        while self.score_log.len() >= 7
            invariant
                self.score_log@.len() <= log0.len(),
                self.score_log@ == log0.skip(log0.len() - self.score_log@.len()),
                log0.len() >= 7 ==> self.score_log@.len() >= 6,
                log0.len() < 7 ==> self.score_log@.len() == log0.len(),
                self.board == old(self).board,
                self.score == old(self).score,
                self.piece_bag == old(self).piece_bag,
                self.cur_piece == old(self).cur_piece,
                self.next_piece == old(self).next_piece,
                self.hold_piece == old(self).hold_piece,
                self.can_hold == old(self).can_hold,
                self.cur_rotation == old(self).cur_rotation,
                self.piece_offset == old(self).piece_offset,
                self.ghost_offset == old(self).ghost_offset,
            decreases self.score_log@.len(),
        {
            self.score_log.remove(0);
            proof {
                assert(self.score_log@ =~= log0.skip(log0.len() - self.score_log@.len()));
            }
        }
        let text = self.score.last_turn_text.clone();
        let entry = LogEntry { text, color: self.score.text_color };
        self.score_log.push(entry);
        proof {
            let kept = if log0.len() >= 7 {
                log0.skip(log0.len() - 6)
            } else {
                log0
            };
            assert(self.score_log@.take(kept.len() as int) =~= kept);
        }
    }

    /// Lock the active piece: stamp it, clear and score the turn, respawn
    /// from the queue (the lose condition resets board and score), log the
    /// turn, and re-arm hold.
    fn lock_piece(&mut self)
        requires
            old(self).wf(),
            old(self).score.score + old(self).score.turn_score + 36800 <= u32::MAX,
            old(self).score.level.lines + 8 <= u32::MAX,
        ensures
            final(self).wf(),
            lock_transition(*old(self), *final(self)),
    {
        self.stamp_piece();
        self.clear_lines();
        let ghost mid = self.score;
        self.reset_piece(true);
        self.update_score_log();
        self.can_hold = true;
        proof {
            assert(score_after_turn(
                old(self).score,
                clear_kind(
                    HEIGHT - live_rows(
                        stamped(
                            old(self).board@,
                            old(self).cur_piece,
                            old(self).cur_rotation as int,
                            old(self).piece_offset.0 as int,
                            old(self).piece_offset.1 as int,
                        ),
                    ).len(),
                ),
                mid,
            ));
        }
    }

    /// Gravity: move the piece one row down, or lock it where it stands.
    /// Returns whether the piece actually moved.
    pub fn move_down(&mut self) -> (moved: bool)
        requires
            old(self).wf(),
            old(self).turn_headroom(),
        ensures
            final(self).wf(),
            move_down_post(*old(self), *final(self), moved),
    {
        proof {
            lemma_fits_bounds(
                self.board@,
                self.cur_piece,
                self.cur_rotation as int,
                self.piece_offset.0 as int,
                self.piece_offset.1 as int,
            );
        }
        let new_offset = (self.piece_offset.0 - 1, self.piece_offset.1);
        if self.try_move(new_offset, self.cur_rotation) {
            self.piece_offset = new_offset;
            proof {
                assert(self.ghost_offset.0 <= self.piece_offset.0);
            }
            true
        } else {
            self.lock_piece();
            false
        }
    }

    /// Gravity plus a one-point soft-drop bonus when the piece actually
    /// moved down.
    pub fn soft_drop(&mut self)
        requires
            old(self).wf(),
            old(self).turn_headroom(),
        ensures
            final(self).wf(),
            soft_drop_post(*old(self), *final(self)),
    {
        let moved = self.move_down();
        if moved {
            self.score.do_event(ScoreEvent::SoftDrop(1));
        }
    }

    /// Drop the piece straight to its ghost position, bank two points per
    /// row fallen, and lock it there.
    pub fn hard_drop(&mut self)
        requires
            old(self).wf(),
            old(self).turn_headroom(),
        ensures
            final(self).wf(),
            hard_drop_post(*old(self), *final(self)),
    {
        proof {
            lemma_fits_bounds(
                self.board@,
                self.cur_piece,
                self.cur_rotation as int,
                self.piece_offset.0 as int,
                self.piece_offset.1 as int,
            );
            lemma_fits_bounds(
                self.board@,
                self.cur_piece,
                self.cur_rotation as int,
                self.ghost_offset.0 as int,
                self.ghost_offset.1 as int,
            );
        }
        let dist = self.piece_offset.0 - self.ghost_offset.0;
        self.score.do_event(ScoreEvent::HardDrop(dist as u32));
        self.piece_offset = self.ghost_offset;
        self.lock_piece();
    }

    /// Whether the active piece's anchor position qualifies as a T-spin:
    /// at least three of the four diagonal corner probes are occupied.
    fn is_tspin(&self) -> (b: bool)
        requires
            self.board.wf(),
        ensures
            b == is_tspin_at(self.board@, self.piece_offset.0 as int, self.piece_offset.1 as int),
    {
        let row = self.piece_offset.0 as i64;
        let col = self.piece_offset.1 as i64;
        let mut n: u8 = 0;
        if self.board.occupied(row, col) {
            n = n + 1;
        }
        if self.board.occupied(row - 2, col) {
            n = n + 1;
        }
        if self.board.occupied(row, col + 2) {
            n = n + 1;
        }
        if self.board.occupied(row - 2, col + 2) {
            n = n + 1;
        }
        n >= 3
    }

    /// Rotate toward `new_rotation`: commit in place if legal, else walk
    /// the wall-kick table in order and commit the first legal candidate;
    /// a committed rotation of a T piece is checked for a T-spin (full at
    /// zero offset, mini via a kick). An impossible rotation is a silent
    /// no-op. The ghost is not recomputed here.
    fn try_rotate_with_kick(&mut self, new_rotation: u8)
        requires
            old(self).board.wf(),
            old(self).score.wf(),
            new_rotation < 4,
            old(self).cur_rotation < 4,
            old(self).cur_fits(
                old(self).piece_offset.0 as int,
                old(self).piece_offset.1 as int,
                old(self).cur_rotation as int,
            ),
        ensures
            rotate_commit(*old(self), *final(self), new_rotation as int),
    {
        proof {
            lemma_fits_bounds(
                self.board@,
                self.cur_piece,
                self.cur_rotation as int,
                self.piece_offset.0 as int,
                self.piece_offset.1 as int,
            );
        }
        if self.try_move(self.piece_offset, new_rotation) {
            self.cur_rotation = new_rotation;
            if self.cur_piece == Piece::T && self.is_tspin() {
                self.score.do_event(ScoreEvent::TSpin(TSpins::TSpin));
            }
            return ;
        }
        let mut k: u8 = 0;
        while k < 4
            invariant
                self.board.wf(),
                self.score.wf(),
                new_rotation < 4,
                self.cur_rotation < 4,
                k <= 4,
                *self == *old(self),
                0 <= self.piece_offset.0 <= HEIGHT + 2,
                -3 <= self.piece_offset.1 < WIDTH,
                !fits(
                    self.board@,
                    self.cur_piece,
                    new_rotation as int,
                    self.piece_offset.0 as int,
                    self.piece_offset.1 as int,
                ),
                forall|m: int|
                    0 <= m < k ==> !fits(
                        self.board@,
                        self.cur_piece,
                        new_rotation as int,
                        kick_row(
                            self.cur_piece,
                            self.cur_rotation as int,
                            new_rotation as int,
                            m,
                            self.piece_offset.0 as int,
                        ),
                        kick_col(
                            self.cur_piece,
                            self.cur_rotation as int,
                            new_rotation as int,
                            m,
                            self.piece_offset.1 as int,
                        ),
                    ),
            decreases 4 - k,
        {
            let (dx, dy) = self.cur_piece.kick(self.cur_rotation, new_rotation, k);
            proof {
                assert(-2 <= dx <= 2 && -2 <= dy <= 2) by {
                    assert(-2 <= self.cur_piece.kick_spec(
                        self.cur_rotation as int,
                        new_rotation as int,
                        k as int,
                    ).0 <= 2);
                    assert(-2 <= self.cur_piece.kick_spec(
                        self.cur_rotation as int,
                        new_rotation as int,
                        k as int,
                    ).1 <= 2);
                }
            }
            let new_offset = (self.piece_offset.0 + dy, self.piece_offset.1 + dx);
            proof {
                assert(new_offset.0 as int == kick_row(
                    self.cur_piece,
                    self.cur_rotation as int,
                    new_rotation as int,
                    k as int,
                    self.piece_offset.0 as int,
                ));
                assert(new_offset.1 as int == kick_col(
                    self.cur_piece,
                    self.cur_rotation as int,
                    new_rotation as int,
                    k as int,
                    self.piece_offset.1 as int,
                ));
            }
            if self.try_move(new_offset, new_rotation) {
                self.piece_offset = new_offset;
                self.cur_rotation = new_rotation;
                if self.cur_piece == Piece::T && self.is_tspin() {
                    self.score.do_event(ScoreEvent::TSpin(TSpins::MiniTSpin));
                }
                return ;
            }
            proof {
                assert(!fits(
                    self.board@,
                    self.cur_piece,
                    new_rotation as int,
                    kick_row(
                        self.cur_piece,
                        self.cur_rotation as int,
                        new_rotation as int,
                        k as int,
                        self.piece_offset.0 as int,
                    ),
                    kick_col(
                        self.cur_piece,
                        self.cur_rotation as int,
                        new_rotation as int,
                        k as int,
                        self.piece_offset.1 as int,
                    ),
                ));
            }
            k = k + 1;
        }
    }

    /// Rotate the piece a quarter turn counter-clockwise, with wall
    /// kicks, then recompute the ghost.
    pub fn rotate_left(&mut self)
        requires
            old(self).wf(),
        ensures
            final(self).wf(),
            rotate_commit(
                *old(self),
                (Game { ghost_offset: old(self).ghost_offset, ..*final(self) }),
                rot_ccw(old(self).cur_rotation as int),
            ),
            final(self).ghost_ok(),
    {
        let new_rotation = (self.cur_rotation + 3) % 4;
        self.try_rotate_with_kick(new_rotation);
        self.update_ghost_position();
    }

    /// Rotate the piece a quarter turn clockwise, with wall kicks, then
    /// recompute the ghost.
    pub fn rotate_right(&mut self)
        requires
            old(self).wf(),
        ensures
            final(self).wf(),
            rotate_commit(
                *old(self),
                (Game { ghost_offset: old(self).ghost_offset, ..*final(self) }),
                rot_cw(old(self).cur_rotation as int),
            ),
            final(self).ghost_ok(),
    {
        let new_rotation = (self.cur_rotation + 1) % 4;
        self.try_rotate_with_kick(new_rotation);
        self.update_ghost_position();
    }

    /// Hold the current piece, swapping with the held kind or drawing a
    /// fresh one; a no-op until a lock re-arms the permission.
    pub fn hold(&mut self)
        requires
            old(self).wf(),
        ensures
            final(self).wf(),
            hold_post(*old(self), *final(self)),
    {
        if !self.can_hold {
            return ;
        }
        match self.hold_piece {
            Option::Some(piece) => {
                self.hold_piece = Option::Some(self.cur_piece);
                self.cur_piece = piece;
                self.reset_piece(false);
            },
            Option::None => {
                self.hold_piece = Option::Some(self.cur_piece);
                self.reset_piece(true);
            },
        }
        self.can_hold = false;
    }

    /// Whether cell (r, c) is covered by the piece's mask anchored at
    /// (row, col) under rotation `rot`.
    fn covered_at(&self, rot: u8, row: i32, col: i32, r: usize, c: usize) -> (b: bool)
        requires
            rot < 4,
            r < HEIGHT,
            c < WIDTH,
        ensures
            b == covers(self.cur_piece, rot as int, row as int, col as int, r as int, c as int),
    {
        let mut i: u8 = 0;
        while i < 4
            invariant
                rot < 4,
                r < HEIGHT,
                c < WIDTH,
                i <= 4,
                forall|a: int, b2: int|
                    0 <= a < i && 0 <= b2 < 4 && self.cur_piece.shape_cell_spec(rot as int, a, b2)
                        ==> !(r as int == row - a && c as int == col + b2),
            decreases 4 - i,
        {
            let mut j: u8 = 0;
            while j < 4
                invariant
                    rot < 4,
                    r < HEIGHT,
                    c < WIDTH,
                    i < 4,
                    j <= 4,
                    forall|a: int, b2: int|
                        0 <= a < i && 0 <= b2 < 4 && self.cur_piece.shape_cell_spec(
                            rot as int,
                            a,
                            b2,
                        ) ==> !(r as int == row - a && c as int == col + b2),
                    forall|b2: int|
                        0 <= b2 < j && self.cur_piece.shape_cell_spec(rot as int, i as int, b2)
                            ==> !(r as int == row - i && c as int == col + b2),
                decreases 4 - j,
            {
                if self.cur_piece.shape_cell(rot, i, j) && row as i64 - i as i64 == r as i64 && col
                    as i64 + j as i64 == c as i64 {
                    proof {
                        assert(covers(
                            self.cur_piece,
                            rot as int,
                            row as int,
                            col as int,
                            r as int,
                            c as int,
                        )) by {
                            assert(0 <= i < 4 && 0 <= j < 4 && self.cur_piece.shape_cell_spec(
                                rot as int,
                                i as int,
                                j as int,
                            ) && r as int == row - i && c as int == col + j);
                        }
                    }
                    return true;
                }
                j = j + 1;
            }
            i = i + 1;
        }
        false
    }

    /// The grid handed to the renderer: the locked board overlaid with
    /// the ghost piece in Shadow and the active piece in its own color.
    pub fn display_cells(&self) -> (v: Vec<Vec<BoardColor>>)
        requires
            self.wf(),
        ensures
            v@.len() == HEIGHT,
            forall|r: int| 0 <= r < HEIGHT ==> (#[trigger] v@[r])@.len() == WIDTH,
            forall|r: int, c: int|
                0 <= r < HEIGHT && 0 <= c < WIDTH ==> (#[trigger] v@[r]@[c]) == display_grid(
                    *self,
                )[r][c],
    {
        let mut v: Vec<Vec<BoardColor>> = Vec::new();
        let mut r: usize = 0;
        while r < HEIGHT
            invariant
                self.wf(),
                r <= HEIGHT,
                v@.len() == r,
                forall|a: int| 0 <= a < r ==> (#[trigger] v@[a])@.len() == WIDTH,
                forall|a: int, c: int|
                    0 <= a < r && 0 <= c < WIDTH ==> (#[trigger] v@[a]@[c]) == display_grid(
                        *self,
                    )[a][c],
            decreases HEIGHT - r,
        {
            let mut row: Vec<BoardColor> = Vec::new();
            let mut c: usize = 0;
            while c < WIDTH
                invariant
                    self.wf(),
                    r < HEIGHT,
                    c <= WIDTH,
                    row@.len() == c,
                    forall|b2: int|
                        0 <= b2 < c ==> (#[trigger] row@[b2]) == display_grid(*self)[r as int][b2],
                decreases WIDTH - c,
            {
                let color = if self.covered_at(
                    self.cur_rotation,
                    self.piece_offset.0,
                    self.piece_offset.1,
                    r,
                    c,
                ) {
                    self.cur_piece.color()
                } else if self.covered_at(
                    self.cur_rotation,
                    self.ghost_offset.0,
                    self.ghost_offset.1,
                    r,
                    c,
                ) {
                    BoardColor::Shadow
                } else {
                    self.board.get(r, c)
                };
                row.push(color);
                c = c + 1;
            }
            v.push(row);
            r = r + 1;
        }
        v
    }

    /// A fresh game over an explicitly supplied starting queue, so that
    /// callers and tests can inject a deterministic piece supply. The
    /// stored high score is handed in by the caller.
    pub fn with_queue(queue: Vec<Piece>, high_score: u32) -> (g: Game)
        requires
            queue@.len() >= 3,
        ensures
            g.wf(),
            initialized_from(g, queue@, high_score),
    {
        let mut bag = queue;
        let ghost q0 = bag@;
        let cur_piece = bag.remove(0);
        let next_piece = bag.remove(0);
        proof {
            assert(bag@ =~= q0.skip(2));
            assert(next_piece == q0[1]);
        }
        let board = Board::new();
        let score = Score::new(high_score);
        let mut score_log: Vec<LogEntry> = Vec::new();
        let mut i: usize = 0;
        while i < 7
            invariant
                i <= 7,
                score_log@.len() == i,
                forall|a: int|
                    0 <= a < i ==> (#[trigger] score_log@[a]).text@ == "-"@ && score_log@[a].color
                        == TextColor::Gray,
            decreases 7 - i,
        {
            score_log.push(LogEntry { text: "-".to_string(), color: TextColor::Gray });
            i = i + 1;
        }
        let mut g = Game {
            board,
            score,
            piece_bag: bag,
            cur_piece,
            next_piece,
            hold_piece: Option::None,
            can_hold: true,
            cur_rotation: 0,
            piece_offset: (SPAWN_ROW, SPAWN_COL),
            ghost_offset: (SPAWN_ROW, SPAWN_COL),
            score_log,
        };
        proof {
            lemma_spawn_fits_empty(g.cur_piece);
        }
        g.update_ghost_position();
        g
    }

    /// A fresh game drawing its opening queue from one shuffled bag.
    pub fn new(high_score: u32) -> (g: Game)
        ensures
            g.wf(),
            exists|b: Seq<Piece>| #![auto] is_full_bag(b) && initialized_from(g, b, high_score),
    {
        let bag = Piece::random_bag();
        let ghost b0 = bag@;
        let g = Game::with_queue(bag, high_score);
        proof {
            assert(is_full_bag(b0) && initialized_from(g, b0, high_score));
        }
        g
    }
}

/// The combo bonus and the level-multiplied base score of one turn stay
/// under a fixed bound, so the headroom demanded of callers covers them.
proof fn lemma_end_turn_points_bound(
    turn: (TSpins, Lines),
    last: (TSpins, Lines),
    level: int,
    pending: int,
)
    requires
        1 <= level <= 15,
        0 <= pending,
    ensures
        pending <= end_turn_points(turn, last, level, pending),
        end_turn_points(turn, last, level, pending) <= pending + 36750,
{
    assert(0 <= crate::score::base_points(turn, last) <= 2400);
    assert(crate::score::base_points(turn, last) * level <= 36000) by (nonlinear_arith)
        requires
            0 <= crate::score::base_points(turn, last) <= 2400,
            1 <= level <= 15,
    ;
    assert(crate::score::base_points(turn, last) * level >= 0) by (nonlinear_arith)
        requires
            0 <= crate::score::base_points(turn, last),
            1 <= level,
    ;
}

} // verus!

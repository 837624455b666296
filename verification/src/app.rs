use vstd::prelude::*;

use crate::actions::{all_actions, key_action, Action, Actions};
use crate::game::{
    fits, hard_drop_post, hold_post, initialized_from, move_down_post, rot_ccw, rot_cw,
    rotate_commit, shift_post, soft_drop_post, Game,
};
use crate::keys::Key;
use crate::level::delay_millis_of;
use crate::piece::is_full_bag;
use crate::state::AppState;

verus! {

/// What the controller asks of its caller after one event: keep going,
/// exit, or re-read the gravity interval.
#[derive(Clone, Copy, PartialEq, Eq, Structural, Debug)]
pub enum AppReturn {
    Exit,
    Continue,
    UpdateSpeed,
}

/// The controller that the event loop drives: the action table, the
/// application lifecycle state, and the game itself.
pub struct App {
    pub actions: Actions,
    pub state: AppState,
    pub game: Game,
}

impl App {
    /// A fresh controller; the previously persisted high score is handed
    /// in by the caller, who owns the store.
    pub fn new(high_score: u32) -> (app: App)
        ensures
            app.game.wf(),
            app.state is Init,
            app.actions.0@ == all_actions(),
            exists|b: Seq<crate::piece::Piece>|
                #![auto]
                is_full_bag(b) && initialized_from(app.game, b, high_score),
    {
        App {
            actions: Actions(Action::iterator()),
            state: AppState::new(),
            game: Game::new(high_score),
        }
    }

    /// The gravity interval of the game's current level, in milliseconds.
    pub fn get_tick_delay(&self) -> (d: u64)
        requires
            self.game.wf(),
        ensures
            d == delay_millis_of(self.game.score.level.level as int),
    {
        self.game.score.level.get_tick_delay()
    }

    /// Feed one key press to the game. Quit asks the caller to exit; a
    /// key bound to no action does nothing.
    pub fn do_action(&mut self, key: Key) -> (r: AppReturn)
        requires
            old(self).game.wf(),
            old(self).game.turn_headroom(),
        ensures
            final(self).game.wf(),
            final(self).actions == old(self).actions,
            final(self).state == old(self).state,
            r == if key_action(key) == Option::Some(Action::Quit) {
                AppReturn::Exit
            } else {
                AppReturn::Continue
            },
            match key_action(key) {
                Option::None => final(self).game == old(self).game,
                Option::Some(a) => match a {
                    Action::Quit => final(self).game == old(self).game,
                    Action::ShiftLeft => shift_post(old(self).game, final(self).game, -1),
                    Action::ShiftRight => shift_post(old(self).game, final(self).game, 1),
                    Action::RotateLeft => rotate_commit(
                        old(self).game,
                        (Game { ghost_offset: old(self).game.ghost_offset, ..final(self).game }),
                        rot_ccw(old(self).game.cur_rotation as int),
                    ) && final(self).game.ghost_ok(),
                    Action::RotateRight => rotate_commit(
                        old(self).game,
                        (Game { ghost_offset: old(self).game.ghost_offset, ..final(self).game }),
                        rot_cw(old(self).game.cur_rotation as int),
                    ) && final(self).game.ghost_ok(),
                    Action::SoftDrop => soft_drop_post(old(self).game, final(self).game),
                    Action::HardDrop => hard_drop_post(old(self).game, final(self).game),
                    Action::Hold => hold_post(old(self).game, final(self).game),
                },
            },
    {
        let action = self.actions.find(key);
        match action {
            Option::Some(Action::Quit) => AppReturn::Exit,
            Option::Some(Action::ShiftLeft) => {
                self.game.move_left();
                AppReturn::Continue
            },
            Option::Some(Action::ShiftRight) => {
                self.game.move_right();
                AppReturn::Continue
            },
            Option::Some(Action::RotateLeft) => {
                self.game.rotate_left();
                AppReturn::Continue
            },
            Option::Some(Action::RotateRight) => {
                self.game.rotate_right();
                AppReturn::Continue
            },
            Option::Some(Action::SoftDrop) => {
                self.game.soft_drop();
                AppReturn::Continue
            },
            Option::Some(Action::HardDrop) => {
                self.game.hard_drop();
                AppReturn::Continue
            },
            Option::Some(Action::Hold) => {
                self.game.hold();
                AppReturn::Continue
            },
            Option::None => AppReturn::Continue,
        }
    }

    /// One gravity tick; asks the caller to re-read the gravity interval
    /// when the tick changed the level.
    pub fn update_on_tick(&mut self) -> (r: AppReturn)
        requires
            old(self).game.wf(),
            old(self).game.turn_headroom(),
        ensures
            final(self).game.wf(),
            final(self).actions == old(self).actions,
            final(self).state == old(self).state,
            move_down_post(
                old(self).game,
                final(self).game,
                fits(
                    old(self).game.board@,
                    old(self).game.cur_piece,
                    old(self).game.cur_rotation as int,
                    old(self).game.piece_offset.0 - 1,
                    old(self).game.piece_offset.1 as int,
                ),
            ),
            r == if final(self).game.score.level.level != old(self).game.score.level.level {
                AppReturn::UpdateSpeed
            } else {
                AppReturn::Continue
            },
    {
        let level_before = self.game.score.level.level;
        let _moved = self.game.move_down();
        if self.game.score.level.level != level_before {
            AppReturn::UpdateSpeed
        } else {
            AppReturn::Continue
        }
    }
}

} // verus!

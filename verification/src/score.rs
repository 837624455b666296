use vstd::prelude::*;

use crate::level::{advance, Level};

verus! {

broadcast use vstd::string::group_string_axioms;

/// One scoring event, delivered between locks and flushed by EndTurn.
#[derive(Clone, Copy, PartialEq, Eq, Structural, Debug)]
pub enum ScoreEvent {
    LineClear(Lines),
    TSpin(TSpins),
    SoftDrop(u32),
    HardDrop(u32),
    EndTurn,
}

/// How many lines the turn cleared.
#[derive(Clone, Copy, PartialEq, Eq, Structural, Debug)]
pub enum Lines {
    NoClear,
    Single,
    Double,
    Triple,
    Tetris,
}

/// Which kind of T-spin the turn performed.
#[derive(Clone, Copy, PartialEq, Eq, Structural, Debug)]
pub enum TSpins {
    NoSpin,
    MiniTSpin,
    TSpin,
}

/// Display color of the last turn's description: Gray for an ordinary turn,
/// Cyan when a combo bonus fired, LightMagenta for a back-to-back turn.
#[derive(Clone, Copy, PartialEq, Eq, Structural, Debug)]
pub enum TextColor {
    Gray,
    Cyan,
    LightMagenta,
}

/// A turn with no line clear and no T-spin breaks combo chains and scores
/// no base points.
pub open spec fn is_neutral(t: (TSpins, Lines)) -> bool {
    t.0 is NoSpin && t.1 is NoClear
}

/// The combo bonus fires when neither the previous nor the current turn
/// was fully neutral.
pub open spec fn combo_applies(last: (TSpins, Lines), cur: (TSpins, Lines)) -> bool {
    !is_neutral(last) && !is_neutral(cur)
}

/// The turn qualifies as back-to-back: it belongs to the fixed allow-list
/// (tetris, T-spin single/double/triple, mini-T-spin double) and repeats
/// the previous turn's classification (for a tetris, any tetris suffices).
pub open spec fn is_b2b(turn: (TSpins, Lines), last: (TSpins, Lines)) -> bool {
    ||| (turn.1 is Tetris && last.1 is Tetris)
    ||| (turn == (TSpins::MiniTSpin, Lines::Double) && last == (TSpins::MiniTSpin, Lines::Double))
    ||| (turn == (TSpins::TSpin, Lines::Single) && last == (TSpins::TSpin, Lines::Single))
    ||| (turn == (TSpins::TSpin, Lines::Double) && last == (TSpins::TSpin, Lines::Double))
    ||| (turn == (TSpins::TSpin, Lines::Triple) && last == (TSpins::TSpin, Lines::Triple))
}

/// Base score of a turn before the level multiplier, back-to-back
/// escalation already applied.
pub open spec fn base_points(turn: (TSpins, Lines), last: (TSpins, Lines)) -> int {
    match turn.1 {
        Lines::Tetris => if last.1 is Tetris {
            1200
        } else {
            800
        },
        Lines::Triple => match turn.0 {
            TSpins::TSpin => if last == (TSpins::TSpin, Lines::Triple) {
                2400
            } else {
                1600
            },
            _ => 500,
        },
        Lines::Double => match turn.0 {
            TSpins::NoSpin => 300,
            TSpins::MiniTSpin => if last == (TSpins::MiniTSpin, Lines::Double) {
                600
            } else {
                400
            },
            TSpins::TSpin => if last == (TSpins::TSpin, Lines::Double) {
                1800
            } else {
                1200
            },
        },
        Lines::Single => match turn.0 {
            TSpins::NoSpin => 100,
            TSpins::MiniTSpin => 200,
            TSpins::TSpin => if last == (TSpins::TSpin, Lines::Single) {
                1200
            } else {
                800
            },
        },
        Lines::NoClear => match turn.0 {
            TSpins::NoSpin => 0,
            TSpins::MiniTSpin => 100,
            TSpins::TSpin => 400,
        },
    }
}

/// The description recorded for a turn.
pub open spec fn turn_text(turn: (TSpins, Lines), last: (TSpins, Lines)) -> Seq<char> {
    match turn.1 {
        Lines::Tetris => if last.1 is Tetris {
            "B2B Tetris"@
        } else {
            "Tetris"@
        },
        Lines::Triple => match turn.0 {
            TSpins::TSpin => if last == (TSpins::TSpin, Lines::Triple) {
                "B2B T-Spin Triple"@
            } else {
                "T-Spin Triple"@
            },
            _ => "Triple"@,
        },
        Lines::Double => match turn.0 {
            TSpins::NoSpin => "Double"@,
            TSpins::MiniTSpin => if last == (TSpins::MiniTSpin, Lines::Double) {
                "B2B Mini T-Spin Double"@
            } else {
                "Mini T-Spin Double"@
            },
            TSpins::TSpin => if last == (TSpins::TSpin, Lines::Double) {
                "B2B T-Spin Double"@
            } else {
                "T-Spin Double"@
            },
        },
        Lines::Single => match turn.0 {
            TSpins::NoSpin => "Single"@,
            TSpins::MiniTSpin => "Mini T-Spin Single"@,
            TSpins::TSpin => if last == (TSpins::TSpin, Lines::Single) {
                "B2B T-Spin Single"@
            } else {
                "T-Spin Single"@
            },
        },
        Lines::NoClear => match turn.0 {
            TSpins::NoSpin => "-"@,
            TSpins::MiniTSpin => "Mini T-Spin"@,
            TSpins::TSpin => "T-Spin"@,
        },
    }
}

/// The display color recorded for a turn: back-to-back beats combo beats
/// ordinary.
pub open spec fn turn_color(turn: (TSpins, Lines), last: (TSpins, Lines)) -> TextColor {
    if is_b2b(turn, last) {
        TextColor::LightMagenta
    } else if combo_applies(last, turn) {
        TextColor::Cyan
    } else {
        TextColor::Gray
    }
}

/// Everything an EndTurn event adds to the total score: the pending drop
/// bonus, the combo bonus, and the level-multiplied base score.
pub open spec fn end_turn_points(
    turn: (TSpins, Lines),
    last: (TSpins, Lines),
    level: int,
    pending: int,
) -> int {
    pending + (if combo_applies(last, turn) {
        50 * level
    } else {
        0
    }) + base_points(turn, last) * level
}

/// The line credit a clear feeds to the level tracker (guideline
/// weighting, not the literal row count).
pub open spec fn line_credit(l: Lines) -> int {
    match l {
        Lines::NoClear => 0,
        Lines::Single => 1,
        Lines::Double => 3,
        Lines::Triple => 5,
        Lines::Tetris => 8,
    }
}

/// A neutral turn after a neutral turn adds nothing beyond the pending
/// drop bonus and awards no combo; with no pending drops it scores
/// exactly zero.
pub proof fn lemma_neutral_turn_scores_zero(
    turn: (TSpins, Lines),
    last: (TSpins, Lines),
    level: int,
    pending: int,
)
    requires
        is_neutral(turn),
        is_neutral(last),
    ensures
        !combo_applies(last, turn),
        end_turn_points(turn, last, level, pending) == pending,
{
}

/// A plain tetris earns base 800; a tetris immediately after another
/// tetris turn escalates to base 1200 and counts as back-to-back.
pub proof fn lemma_tetris_back_to_back_base(last: (TSpins, Lines))
    ensures
        base_points((TSpins::NoSpin, Lines::Tetris), last) == if last.1 is Tetris {
            1200int
        } else {
            800int
        },
        is_b2b((TSpins::NoSpin, Lines::Tetris), last) == last.1 is Tetris,
{
}

/// Per-turn scoring state: the running and persisted-best totals, the level
/// tracker, the accumulating turn classification, and the last turn's
/// record for back-to-back and display purposes.
pub struct Score {
    pub score: u32,
    pub level: Level,
    pub high_score: u32,
    pub turn: (TSpins, Lines),
    pub turn_score: u32,
    pub last_turn: (TSpins, Lines),
    pub last_turn_score: u32,
    pub last_turn_text: String,
    pub text_color: TextColor,
}

impl Score {
    pub open spec fn wf(&self) -> bool {
        self.level.wf()
    }

    /// Whether the arithmetic an event triggers stays within u32.
    pub open spec fn event_ok(&self, event: ScoreEvent) -> bool {
        match event {
            ScoreEvent::LineClear(_) => true,
            ScoreEvent::TSpin(_) => true,
            ScoreEvent::SoftDrop(n) => self.turn_score + n <= u32::MAX,
            ScoreEvent::HardDrop(n) => self.turn_score + 2 * n <= u32::MAX,
            ScoreEvent::EndTurn => {
                &&& self.score + end_turn_points(
                    self.turn,
                    self.last_turn,
                    self.level.level as int,
                    self.turn_score as int,
                ) <= u32::MAX
                &&& self.level.lines + line_credit(self.turn.1) <= u32::MAX
            },
        }
    }

    /// A fresh score board; the previously persisted high score is handed
    /// in by the caller, who owns the store.
    pub fn new(high_score: u32) -> (s: Score)
        ensures
            s.wf(),
            s.score == 0,
            s.high_score == high_score,
            s.turn_score == 0,
            s.last_turn_score == 0,
            s.turn == (TSpins::NoSpin, Lines::NoClear),
            s.last_turn == (TSpins::NoSpin, Lines::NoClear),
            s.last_turn_text@ == Seq::<char>::empty(),
            s.text_color == TextColor::Gray,
            s.level.level == 1,
            s.level.lines == 0,
            s.level.lines_goal == 5,
    {
        Score {
            score: 0,
            level: Level::new(),
            high_score,
            turn_score: 0,
            last_turn_score: 0,
            last_turn_text: String::new(),
            turn: (TSpins::NoSpin, Lines::NoClear),
            last_turn: (TSpins::NoSpin, Lines::NoClear),
            text_color: TextColor::Gray,
        }
    }

    pub fn last_turn_score(&self) -> (r: u32)
        ensures
            r == self.last_turn_score,
    {
        self.last_turn_score
    }

    pub fn last_turn_text(&self) -> (t: &str)
        ensures
            t@ == self.last_turn_text@,
    {
        self.last_turn_text.as_str()
    }

    pub fn text_color(&self) -> (c: TextColor)
        ensures
            c == self.text_color,
    {
        self.text_color
    }

    pub fn score(&self) -> (r: u32)
        ensures
            r == self.score,
    {
        self.score
    }

    pub fn high_score(&self) -> (r: u32)
        ensures
            r == self.high_score,
    {
        self.high_score
    }

    pub fn lines(&self) -> (r: u32)
        ensures
            r == self.level.lines,
    {
        self.level.lines
    }

    pub fn lines_goal(&self) -> (r: u32)
        ensures
            r == self.level.lines_goal,
    {
        self.level.lines_goal
    }

    pub fn level(&self) -> (r: u8)
        ensures
            r == self.level.level,
    {
        self.level.level
    }

    /// Credit cleared lines to the level tracker.
    pub fn add_lines(&mut self, lines: u32)
        requires
            old(self).wf(),
            old(self).level.lines + lines <= u32::MAX,
        ensures
            final(self).wf(),
            final(self).level.lines == old(self).level.lines + lines,
            (final(self).level.level as int, final(self).level.lines_goal as int) == advance(
                old(self).level.level as int,
                old(self).level.lines_goal as int,
                old(self).level.lines + lines,
            ),
            *final(self) == (Score { level: final(self).level, ..*old(self) }),
    {
        self.level.add_lines(lines)
    }

    /// Persist the run's score into the high score if it beats it, then
    /// reset score and level state; invoked only on the lose condition.
    pub fn save_and_reset_score(&mut self)
        requires
            old(self).wf(),
        ensures
            final(self).wf(),
            final(self).high_score == if old(self).score > old(self).high_score {
                old(self).score
            } else {
                old(self).high_score
            },
            final(self).score == 0,
            final(self).level.level == 1,
            final(self).level.lines == 0,
            final(self).level.lines_goal == 5,
            final(self).turn == old(self).turn,
            final(self).turn_score == old(self).turn_score,
            final(self).last_turn == old(self).last_turn,
            final(self).last_turn_score == old(self).last_turn_score,
            final(self).last_turn_text == old(self).last_turn_text,
            final(self).text_color == old(self).text_color,
    {
        if self.score > self.high_score {
            self.high_score = self.score;
        }
        self.score = 0;
        self.level = Level::new();
    }

    /// Fold one event into the turn state; EndTurn performs the whole
    /// scoring calculation of the turn.
    pub fn do_event(&mut self, event: ScoreEvent)
        requires
            old(self).wf(),
            old(self).event_ok(event),
        ensures
            final(self).wf(),
            match event {
                ScoreEvent::LineClear(l) => *final(self) == (Score {
                    turn: (old(self).turn.0, l),
                    ..*old(self)
                }),
                ScoreEvent::TSpin(t) => *final(self) == (Score {
                    turn: (t, old(self).turn.1),
                    ..*old(self)
                }),
                ScoreEvent::SoftDrop(n) => *final(self) == (Score {
                    turn_score: (old(self).turn_score + n) as u32,
                    ..*old(self)
                }),
                ScoreEvent::HardDrop(n) => *final(self) == (Score {
                    turn_score: (old(self).turn_score + 2 * n) as u32,
                    ..*old(self)
                }),
                ScoreEvent::EndTurn => {
                    let points = end_turn_points(
                        old(self).turn,
                        old(self).last_turn,
                        old(self).level.level as int,
                        old(self).turn_score as int,
                    );
                    &&& final(self).score == old(self).score + points
                    &&& final(self).last_turn_score == points
                    &&& final(self).turn_score == 0
                    &&& final(self).turn == (TSpins::NoSpin, Lines::NoClear)
                    &&& final(self).last_turn == old(self).turn
                    &&& final(self).last_turn_text@ == turn_text(old(self).turn, old(self).last_turn)
                    &&& final(self).text_color == turn_color(old(self).turn, old(self).last_turn)
                    &&& final(self).high_score == old(self).high_score
                    &&& final(self).level.lines == old(self).level.lines + line_credit(
                        old(self).turn.1,
                    )
                    &&& (final(self).level.level as int, final(self).level.lines_goal as int)
                        == advance(
                        old(self).level.level as int,
                        old(self).level.lines_goal as int,
                        old(self).level.lines + line_credit(old(self).turn.1),
                    )
                },
            },
    {
        match event {
            ScoreEvent::LineClear(lines) => {
                self.turn = (self.turn.0, lines);
            },
            ScoreEvent::TSpin(spin) => {
                self.turn = (spin, self.turn.1);
            },
            ScoreEvent::SoftDrop(len) => {
                self.turn_score = self.turn_score + len;
            },
            ScoreEvent::HardDrop(len) => {
                self.turn_score = self.turn_score + 2 * len;
            },
            ScoreEvent::EndTurn => {
                let level = self.level.level as u32;

                // Combo bonus: two consecutive non-neutral turns.
                let last_neutral = self.last_turn.0 == TSpins::NoSpin && self.last_turn.1
                    == Lines::NoClear;
                let turn_neutral = self.turn.0 == TSpins::NoSpin && self.turn.1 == Lines::NoClear;
                if !last_neutral && !turn_neutral {
                    self.turn_score = self.turn_score + 50 * level;
                    self.text_color = TextColor::Cyan;
                } else {
                    self.text_color = TextColor::Gray;
                }

                match (self.turn.0, self.turn.1) {
                    (TSpins::NoSpin, Lines::Single) => {
                        self.turn_score = self.turn_score + 100 * level;
                        self.last_turn_text = "Single".to_string();
                    },
                    (TSpins::MiniTSpin, Lines::NoClear) => {
                        self.turn_score = self.turn_score + 100 * level;
                        self.last_turn_text = "Mini T-Spin".to_string();
                    },
                    (TSpins::MiniTSpin, Lines::Single) => {
                        self.turn_score = self.turn_score + 200 * level;
                        self.last_turn_text = "Mini T-Spin Single".to_string();
                    },
                    (TSpins::NoSpin, Lines::Double) => {
                        self.turn_score = self.turn_score + 300 * level;
                        self.last_turn_text = "Double".to_string();
                    },
                    (TSpins::MiniTSpin, Lines::Double) => {
                        if self.last_turn.0 == TSpins::MiniTSpin && self.last_turn.1
                            == Lines::Double {
                            self.turn_score = self.turn_score + 600 * level;
                            self.last_turn_text = "B2B Mini T-Spin Double".to_string();
                            self.text_color = TextColor::LightMagenta;
                        } else {
                            self.turn_score = self.turn_score + 400 * level;
                            self.last_turn_text = "Mini T-Spin Double".to_string();
                        }
                    },
                    (TSpins::TSpin, Lines::NoClear) => {
                        self.turn_score = self.turn_score + 400 * level;
                        self.last_turn_text = "T-Spin".to_string();
                    },
                    (TSpins::NoSpin, Lines::Triple) | (TSpins::MiniTSpin, Lines::Triple) => {
                        self.turn_score = self.turn_score + 500 * level;
                        self.last_turn_text = "Triple".to_string();
                    },
                    (_, Lines::Tetris) => {
                        if self.last_turn.1 == Lines::Tetris {
                            self.turn_score = self.turn_score + 1200 * level;
                            self.last_turn_text = "B2B Tetris".to_string();
                            self.text_color = TextColor::LightMagenta;
                        } else {
                            self.turn_score = self.turn_score + 800 * level;
                            self.last_turn_text = "Tetris".to_string();
                        }
                    },
                    (TSpins::TSpin, Lines::Single) => {
                        if self.last_turn.0 == TSpins::TSpin && self.last_turn.1 == Lines::Single {
                            self.turn_score = self.turn_score + 1200 * level;
                            self.last_turn_text = "B2B T-Spin Single".to_string();
                            self.text_color = TextColor::LightMagenta;
                        } else {
                            self.turn_score = self.turn_score + 800 * level;
                            self.last_turn_text = "T-Spin Single".to_string();
                        }
                    },
                    (TSpins::TSpin, Lines::Double) => {
                        if self.last_turn.0 == TSpins::TSpin && self.last_turn.1 == Lines::Double {
                            self.turn_score = self.turn_score + 1800 * level;
                            self.last_turn_text = "B2B T-Spin Double".to_string();
                            self.text_color = TextColor::LightMagenta;
                        } else {
                            self.turn_score = self.turn_score + 1200 * level;
                            self.last_turn_text = "T-Spin Double".to_string();
                        }
                    },
                    (TSpins::TSpin, Lines::Triple) => {
                        if self.last_turn.0 == TSpins::TSpin && self.last_turn.1 == Lines::Triple {
                            self.turn_score = self.turn_score + 2400 * level;
                            self.last_turn_text = "B2B T-Spin Triple".to_string();
                            self.text_color = TextColor::LightMagenta;
                        } else {
                            self.turn_score = self.turn_score + 1600 * level;
                            self.last_turn_text = "T-Spin Triple".to_string();
                        }
                    },
                    (TSpins::NoSpin, Lines::NoClear) => {
                        self.last_turn_text = "-".to_string();
                    },
                }

                let credit: u32 = match self.turn.1 {
                    Lines::NoClear => 0,
                    Lines::Single => 1,
                    Lines::Double => 3,
                    Lines::Triple => 5,
                    Lines::Tetris => 8,
                };
                self.level.add_lines(credit);

                self.last_turn = self.turn;
                self.turn = (TSpins::NoSpin, Lines::NoClear);

                self.score = self.score + self.turn_score;
                self.last_turn_score = self.turn_score;
                self.turn_score = 0;
            },
        }
    }
}

} // verus!

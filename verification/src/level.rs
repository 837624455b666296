use vstd::prelude::*;

verus! {

/// Cumulative line count and current level, with the derived gravity delay.
///
/// The level starts at 1, never decreases within a run, and is capped at 15.
/// Reaching the running lines goal raises the level; each level-up extends
/// the goal by five times the new level.
pub struct Level {
    pub level: u8,
    pub lines: u32,
    pub lines_goal: u32,
}

/// The lines goal that belongs to a level: five times the sum 1 + 2 + ... + level.
pub open spec fn goal_of(level: int) -> int
    decreases level,
{
    if level <= 0 {
        0
    } else {
        goal_of(level - 1) + 5 * level
    }
}

/// Level and goal after crediting lines: while the goal is met and the level
/// is below the cap, step the level up and extend the goal.
pub open spec fn advance(level: int, goal: int, lines: int) -> (int, int)
    decreases 15 - level,
{
    if lines >= goal && 0 <= level < 15 {
        advance(level + 1, goal + 5 * (level + 1), lines)
    } else {
        (level, goal)
    }
}

/// Gravity interval in milliseconds for a level. Index 0 is an unreachable
/// sentinel; levels at or above 15 clamp to the fastest entry.
pub open spec fn delay_millis_of(level: int) -> u64 {
    if level <= 0 {
        u64::MAX
    } else if level == 1 {
        1000
    } else if level == 2 {
        793
    } else if level == 3 {
        618
    } else if level == 4 {
        473
    } else if level == 5 {
        355
    } else if level == 6 {
        262
    } else if level == 7 {
        190
    } else if level == 8 {
        135
    } else if level == 9 {
        94
    } else if level == 10 {
        64
    } else if level == 11 {
        43
    } else if level == 12 {
        28
    } else if level == 13 {
        18
    } else if level == 14 {
        12
    } else {
        7
    }
}

/// The goal that belongs to any level up to the cap fits well inside `u32`.
proof fn lemma_goal_of_bound(level: int)
    requires
        0 <= level <= 15,
    ensures
        goal_of(level) <= 600,
    decreases 15 - level,
{
    if level < 15 {
        lemma_goal_of_bound(level + 1);
        assert(goal_of(level + 1) == goal_of(level) + 5 * (level + 1));
    } else {
        reveal_with_fuel(goal_of, 16);
    }
}

impl Level {
    pub open spec fn wf(self) -> bool {
        &&& 1 <= self.level <= 15
        &&& self.lines_goal == goal_of(self.level as int)
        &&& self.level < 15 ==> self.lines < self.lines_goal
    }

    pub fn new() -> (r: Level)
        ensures
            r.level == 1,
            r.lines == 0,
            r.lines_goal == 5,
            r.wf(),
    {
        proof {
            reveal_with_fuel(goal_of, 2);
        }
        Level { level: 1, lines: 0, lines_goal: 5 }
    }

    /// Gravity interval in milliseconds for the current level.
    pub fn get_tick_delay(&self) -> (d: u64)
        requires
            self.wf(),
        ensures
            d == delay_millis_of(self.level as int),
    {
        if self.level == 1 {
            1000
        } else if self.level == 2 {
            793
        } else if self.level == 3 {
            618
        } else if self.level == 4 {
            473
        } else if self.level == 5 {
            355
        } else if self.level == 6 {
            262
        } else if self.level == 7 {
            190
        } else if self.level == 8 {
            135
        } else if self.level == 9 {
            94
        } else if self.level == 10 {
            64
        } else if self.level == 11 {
            43
        } else if self.level == 12 {
            28
        } else if self.level == 13 {
            18
        } else if self.level == 14 {
            12
        } else {
            7
        }
    }

    /// Credit cleared lines and raise the level while the goal is met.
    pub fn add_lines(&mut self, lines: u32)
        requires
            old(self).wf(),
            old(self).lines + lines <= u32::MAX,
        ensures
            final(self).wf(),
            final(self).lines == old(self).lines + lines,
            (final(self).level as int, final(self).lines_goal as int) == advance(
                old(self).level as int,
                old(self).lines_goal as int,
                old(self).lines + lines,
            ),
    {
        self.lines = self.lines + lines;
        while self.lines >= self.lines_goal && self.level < 15
            invariant
                1 <= self.level <= 15,
                self.lines_goal == goal_of(self.level as int),
                self.lines == old(self).lines + lines,
                advance(self.level as int, self.lines_goal as int, self.lines as int) == advance(
                    old(self).level as int,
                    old(self).lines_goal as int,
                    old(self).lines + lines,
                ),
            decreases 15 - self.level,
        {
            proof {
                lemma_goal_of_bound(self.level + 1);
            }
            self.level = self.level + 1;
            self.lines_goal = self.lines_goal + (self.level as u32) * 5;
        }
    }
}

} // verus!

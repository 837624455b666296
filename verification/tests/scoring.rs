use tetris_core::level::Level;
use tetris_core::score::{Lines, Score, ScoreEvent, TSpins, TextColor};

#[test]
fn level_new_defaults() {
    let level = Level::new();
    assert_eq!(level.level, 1);
    assert_eq!(level.lines, 0);
    assert_eq!(level.lines_goal, 5);
}

#[test]
fn level_up_at_goal() {
    let mut level = Level::new();
    level.add_lines(5);
    assert_eq!(level.level, 2);
    assert_eq!(level.lines, 5);
    assert_eq!(level.lines_goal, 15);
}

#[test]
fn level_below_goal_keeps_level() {
    let mut level = Level::new();
    level.add_lines(4);
    assert_eq!(level.level, 1);
    assert_eq!(level.lines, 4);
    assert_eq!(level.lines_goal, 5);
}

#[test]
fn level_caps_at_fifteen() {
    let mut level = Level::new();
    level.add_lines(100_000);
    assert_eq!(level.level, 15);
    assert_eq!(level.lines, 100_000);
}

#[test]
fn tick_delay_table() {
    assert_eq!(Level::new().get_tick_delay(), 1000);
    let mid = Level { level: 5, lines: 60, lines_goal: 75 };
    assert_eq!(mid.get_tick_delay(), 355);
    let top = Level { level: 15, lines: 600, lines_goal: 600 };
    assert_eq!(top.get_tick_delay(), 7);
}

#[test]
fn single_clear_scores_100() {
    let mut score = Score::new(0);
    score.do_event(ScoreEvent::LineClear(Lines::Single));
    score.do_event(ScoreEvent::EndTurn);
    assert_eq!(score.score(), 100);
    assert_eq!(score.last_turn_score(), 100);
    assert_eq!(score.last_turn_text(), "Single");
    assert_eq!(score.lines(), 1);
}

#[test]
fn tetris_then_back_to_back_tetris() {
    let mut score = Score::new(0);
    score.do_event(ScoreEvent::LineClear(Lines::Tetris));
    score.do_event(ScoreEvent::EndTurn);
    assert_eq!(score.last_turn_score(), 800);
    assert_eq!(score.last_turn_text(), "Tetris");

    // The first tetris credits eight lines, so the level is already 2.
    assert_eq!(score.level(), 2);

    // The second tetris escalates its base score from 800 to 1200 per
    // level and adds the 50-per-level combo bonus for chaining two
    // scoring turns: (1200 + 50) * 2.
    score.do_event(ScoreEvent::LineClear(Lines::Tetris));
    score.do_event(ScoreEvent::EndTurn);
    assert_eq!(score.last_turn_score(), 2500);
    assert_eq!(score.last_turn_text(), "B2B Tetris");
    assert_eq!(score.text_color(), TextColor::LightMagenta);
    assert_eq!(score.score(), 3300);
}

#[test]
fn neutral_after_neutral_scores_zero() {
    let mut score = Score::new(0);
    score.do_event(ScoreEvent::EndTurn);
    score.do_event(ScoreEvent::EndTurn);
    assert_eq!(score.score(), 0);
    assert_eq!(score.last_turn_score(), 0);
    assert_eq!(score.last_turn_text(), "-");
    assert_eq!(score.text_color(), TextColor::Gray);
}

#[test]
fn combo_fires_on_consecutive_scoring_turns() {
    let mut score = Score::new(0);
    score.do_event(ScoreEvent::LineClear(Lines::Single));
    score.do_event(ScoreEvent::EndTurn);
    assert_eq!(score.last_turn_score(), 100);
    score.do_event(ScoreEvent::LineClear(Lines::Single));
    score.do_event(ScoreEvent::EndTurn);
    assert_eq!(score.last_turn_score(), 150);
    assert_eq!(score.text_color(), TextColor::Cyan);
}

#[test]
fn neutral_turn_breaks_combo() {
    let mut score = Score::new(0);
    score.do_event(ScoreEvent::LineClear(Lines::Single));
    score.do_event(ScoreEvent::EndTurn);
    score.do_event(ScoreEvent::EndTurn);
    score.do_event(ScoreEvent::LineClear(Lines::Single));
    score.do_event(ScoreEvent::EndTurn);
    assert_eq!(score.last_turn_score(), 100);
}

#[test]
fn mini_tspin_scores_100() {
    let mut score = Score::new(0);
    score.do_event(ScoreEvent::TSpin(TSpins::MiniTSpin));
    score.do_event(ScoreEvent::EndTurn);
    assert_eq!(score.last_turn_score(), 100);
    assert_eq!(score.last_turn_text(), "Mini T-Spin");
}

#[test]
fn tspin_double_scores_1200() {
    let mut score = Score::new(0);
    score.do_event(ScoreEvent::TSpin(TSpins::TSpin));
    score.do_event(ScoreEvent::LineClear(Lines::Double));
    score.do_event(ScoreEvent::EndTurn);
    assert_eq!(score.last_turn_score(), 1200);
    assert_eq!(score.last_turn_text(), "T-Spin Double");
    assert_eq!(score.lines(), 3);
}

#[test]
fn base_scores_scale_with_level() {
    let mut score = Score::new(0);
    // Reach level 2 first (five line credits), through a scored single
    // and a scored double: 1 + 3 credits, then one more single.
    score.do_event(ScoreEvent::LineClear(Lines::Single));
    score.do_event(ScoreEvent::EndTurn);
    score.do_event(ScoreEvent::LineClear(Lines::Double));
    score.do_event(ScoreEvent::EndTurn);
    score.do_event(ScoreEvent::LineClear(Lines::Single));
    score.do_event(ScoreEvent::EndTurn);
    assert_eq!(score.level(), 2);
    score.do_event(ScoreEvent::LineClear(Lines::Single));
    score.do_event(ScoreEvent::EndTurn);
    // 100 base at level 2, plus the 50-per-level combo bonus.
    assert_eq!(score.last_turn_score(), 100 * 2 + 50 * 2);
}

#[test]
fn drop_bonuses_add_unconditionally() {
    let mut score = Score::new(0);
    score.do_event(ScoreEvent::SoftDrop(1));
    score.do_event(ScoreEvent::SoftDrop(1));
    score.do_event(ScoreEvent::HardDrop(10));
    score.do_event(ScoreEvent::EndTurn);
    assert_eq!(score.score(), 2 + 20);
    assert_eq!(score.last_turn_score(), 22);
}

#[test]
fn save_and_reset_updates_high_score() {
    let mut score = Score::new(300);
    score.do_event(ScoreEvent::LineClear(Lines::Tetris));
    score.do_event(ScoreEvent::EndTurn);
    assert_eq!(score.score(), 800);
    score.save_and_reset_score();
    assert_eq!(score.high_score(), 800);
    assert_eq!(score.score(), 0);
    assert_eq!(score.level(), 1);
    assert_eq!(score.lines(), 0);
}

#[test]
fn save_and_reset_keeps_better_high_score() {
    let mut score = Score::new(5000);
    score.do_event(ScoreEvent::LineClear(Lines::Single));
    score.do_event(ScoreEvent::EndTurn);
    score.save_and_reset_score();
    assert_eq!(score.high_score(), 5000);
    assert_eq!(score.score(), 0);
}

use tetris_core::actions::{Action, Actions};
use tetris_core::app::{App, AppReturn};
use tetris_core::keys::{BaseKey, InputEvent, Key};
use tetris_core::state::AppState;

#[test]
fn iterator_lists_every_action() {
    let all = Action::iterator();
    assert_eq!(all.len(), 8);
    assert_eq!(all[0], Action::Quit);
    assert_eq!(all[7], Action::Hold);
}

#[test]
fn quit_binds_ctrl_c() {
    let keys = Action::Quit.keys();
    assert_eq!(keys, vec![Key::Ctrl(BaseKey::Char('c'))]);
}

#[test]
fn find_maps_keys_to_actions() {
    let actions = Actions(Action::iterator());
    assert_eq!(actions.find(Key::Plain(BaseKey::Char('a'))), Some(Action::ShiftLeft));
    assert_eq!(actions.find(Key::Plain(BaseKey::Left)), Some(Action::ShiftLeft));
    assert_eq!(actions.find(Key::Plain(BaseKey::Right)), Some(Action::ShiftRight));
    assert_eq!(actions.find(Key::Ctrl(BaseKey::Char('c'))), Some(Action::Quit));
    assert_eq!(actions.find(Key::Plain(BaseKey::Char(' '))), Some(Action::HardDrop));
    assert_eq!(actions.find(Key::Plain(BaseKey::Char('x'))), None);
    assert_eq!(actions.find(Key::Ctrl(BaseKey::Char('a'))), None);
}

#[test]
fn app_state_initialized_holds_one_second() {
    let state = AppState::initialized();
    assert_eq!(state, AppState::Initialized { delay_millis: 1000 });
    assert_eq!(AppState::new(), AppState::Init);
}

#[test]
fn app_dispatches_and_reports() {
    let mut app = App::new(0);
    assert_eq!(app.get_tick_delay(), 1000);
    assert_eq!(app.do_action(Key::Plain(BaseKey::Char('x'))), AppReturn::Continue);
    let col_before = app.game.piece_offset.1;
    assert_eq!(app.do_action(Key::Plain(BaseKey::Left)), AppReturn::Continue);
    assert_eq!(app.game.piece_offset.1, col_before - 1);
    assert_eq!(app.do_action(Key::Ctrl(BaseKey::Char('c'))), AppReturn::Exit);
}

#[test]
fn tick_applies_gravity() {
    let mut app = App::new(0);
    let row_before = app.game.piece_offset.0;
    assert_eq!(app.update_on_tick(), AppReturn::Continue);
    assert_eq!(app.game.piece_offset.0, row_before - 1);
}

#[test]
fn input_events_carry_keys() {
    let event = InputEvent::Input(Key::Plain(BaseKey::Down));
    assert!(matches!(event, InputEvent::Input(_)));
    assert!(matches!(InputEvent::Tick, InputEvent::Tick));
}

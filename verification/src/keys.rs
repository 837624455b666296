use vstd::prelude::*;

verus! {

/// A plain key of the keyboard, as the action table sees it. `NoKey`
/// stands for any key the table does not distinguish.
#[derive(Clone, Copy, PartialEq, Eq, Structural, Debug)]
pub enum BaseKey {
    NoKey,
    Char(char),
    Enter,
    Tab,
    Left,
    Right,
    Up,
    Down,
}

/// A key with its modifier: pressed plain, or with Ctrl held.
#[derive(Clone, Copy, PartialEq, Eq, Structural, Debug)]
pub enum Key {
    Plain(BaseKey),
    Ctrl(BaseKey),
}

/// One discrete event delivered to the controller: a key press or a
/// gravity tick.
#[derive(Clone, Copy, PartialEq, Eq, Structural, Debug)]
pub enum InputEvent {
    Input(Key),
    Tick,
}

} // verus!

use vstd::prelude::*;

verus! {

/// Lifecycle of the surrounding application: freshly created, or
/// initialized with its gravity interval in milliseconds.
#[derive(Clone, Copy, PartialEq, Eq, Structural, Debug)]
pub enum AppState {
    Init,
    Initialized { delay_millis: u64 },
}

impl AppState {
    pub fn new() -> (s: AppState)
        ensures
            s is Init,
    {
        AppState::Init
    }

    pub fn initialized() -> (s: AppState)
        ensures
            s == (AppState::Initialized { delay_millis: 1000u64 }),
    {
        AppState::Initialized { delay_millis: 1000 }
    }
}

} // verus!

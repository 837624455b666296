use vstd::prelude::*;

verus! {

/// Color of one board cell. `Empty` marks a free cell; `Shadow` marks the
/// projected landing position of the active piece and never takes part in
/// collision checks (it only appears in display projections).
#[derive(Clone, Copy, PartialEq, Eq, Structural, Debug)]
pub enum BoardColor {
    Empty,
    Shadow,
    LightBlue,
    DarkBlue,
    Red,
    Purple,
    Orange,
    Green,
    Yellow,
}

} // verus!

//! A falling-block puzzle engine: the playing-field grid, the active
//! piece's position and rotation, the bag-randomized piece supply,
//! collision and wall-kick resolution, line clearing, and the scoring and
//! leveling state machine with combo and back-to-back bonuses.
//!
//! Terminal rendering, the input and tick threads, and the persistent
//! high-score store are the surrounding binary's concern; it drives this
//! library through [`app::App`] and the read-only projections of
//! [`game::Game`].

pub mod actions;
pub mod app;
pub mod board;
pub mod colors;
pub mod game;
pub mod keys;
pub mod level;
pub mod piece;
pub mod score;
pub mod state;

//! Simulation core of a side-scrolling reflex game: a block falls under
//! gravity, jumps on command, and must avoid triangular spikes that enter at
//! the right edge of a fixed playfield and slide left ever faster.
//!
//! All quantities are fixed-point integers so that every step is exact:
//! lengths and speeds are in billionths of a playfield unit, the score is in
//! millionths of a frame, and elapsed time is given in microseconds.
use vstd::prelude::*;

pub mod units;
pub mod spike;
pub mod difficulty;
pub mod game;
mod random;


pub use game::{Game, GameView, Vec2};
pub use spike::Spike;

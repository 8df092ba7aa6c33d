//! Rules engine and event-sourced state machine of a two-player checkers game.
use vstd::prelude::*;

pub mod coords;
pub mod error;
pub mod board;
pub mod game;
pub mod game_state;
pub mod game_utils;
pub mod piece;
pub mod player;

verus! {

/// Number of cells on each side of the square board.
pub const CELL_N: usize = 8;

} // verus!

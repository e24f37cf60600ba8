//! Core logic of a terminal invaders game.
//!
//! The library owns everything that can be stated and proved: the enemy
//! formation's lockstep movement (edge-triggered reversal, descent and
//! speed-up), the countdown timer driving it, the frame buffer that drawables
//! render into, the diff between consecutive frames that bounds terminal
//! output, and the win/lose decision. Terminal I/O, input decoding and audio
//! cues live outside the library and exchange plain values with it.

use vstd::prelude::*;

pub mod frame;
pub mod game;
pub mod invaders;
pub mod render;
pub mod timer;

verus! {

/// Width of the playing field, in columns.
pub const NUM_COLS: usize = 40;

/// Height of the playing field, in rows.
pub const NUM_ROWS: usize = 20;

/// Grid spacing of the initial formation: enemies sit on every
/// `SPARSE_VAL`-th column and row of the spawn rectangle.
pub const SPARSE_VAL: usize = 2;

} // verus!

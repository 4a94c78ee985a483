//! Rules engine for a falling-block puzzle game: the playing field, the
//! piece catalogue and rotation model, movement and placement legality,
//! line clearing and scoring, and the lock-down timing state machine.

pub mod color;
pub mod engine;
pub mod geometry;
pub mod input;
pub mod matrix;
pub mod move_kind;
pub mod piece;
pub mod piece_kind;
pub mod piece_rotation;
pub mod rng;
pub mod session;
pub mod state;

use vstd::prelude::*;

verus! {

/// An unsigned grid position; the origin is the bottom-left of the field.
#[derive(Clone, Copy, PartialEq, Eq, Structural, Debug)]
pub struct Coordinate {
    pub x: usize,
    pub y: usize,
}

/// A signed vector: piece-local cell positions and movement deltas.
#[derive(Clone, Copy, PartialEq, Eq, Structural, Debug)]
pub struct Offset {
    pub x: isize,
    pub y: isize,
}

impl Coordinate {
    pub fn new(x: usize, y: usize) -> (r: Coordinate)
        ensures
            r.x == x,
            r.y == y,
    {
        Coordinate { x, y }
    }
}

impl Offset {
    pub fn new(x: isize, y: isize) -> (r: Offset)
        ensures
            r.x == x,
            r.y == y,
    {
        Offset { x, y }
    }
}

} // verus!

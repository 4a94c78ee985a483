use vstd::prelude::*;

use crate::Offset;

verus! {

/// A horizontal movement request for the falling piece.
#[derive(Clone, Copy, PartialEq, Eq, Structural, Debug)]
pub enum MoveKind {
    Left,
    Right,
}

/// The translation a movement request stands for.
pub open spec fn move_offset_spec(k: MoveKind) -> (int, int) {
    match k {
        MoveKind::Left => (-1, 0),
        MoveKind::Right => (1, 0),
    }
}

impl MoveKind {
    pub fn offset(&self) -> (r: Offset)
        ensures
            (r.x as int, r.y as int) == move_offset_spec(*self),
    {
        match self {
            MoveKind::Left => Offset { x: -1, y: 0 },
            MoveKind::Right => Offset { x: 1, y: 0 },
        }
    }
}

} // verus!

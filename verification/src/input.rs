use vstd::prelude::*;

use crate::move_kind::MoveKind;
use crate::piece_rotation::Rotation;

verus! {

/// An abstract, already-decoded player action. The decoder maps device
/// keys onto these; an unrecognized key produces no input at all.
#[derive(Clone, Copy, PartialEq, Eq, Structural, Debug)]
pub enum Input {
    Move(MoveKind),
    Rotation(Rotation),
    SoftDrop,
    HardDrop,
    Pause,
    Hold,
    Continue,
}

} // verus!

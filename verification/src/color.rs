use vstd::prelude::*;

verus! {

/// The display color of a tetrimino; every occupied field cell carries one.
#[derive(Clone, Copy, PartialEq, Eq, Structural, Debug)]
pub enum TetriminoColor {
    Yellow,
    Cyan,
    Purple,
    Orange,
    Blue,
    Green,
    Red,
}

} // verus!

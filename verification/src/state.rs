use vstd::prelude::*;

verus! {

/// The top-level game state. TickingDown is the initial state; GameOver
/// is terminal and leaves only through an explicit continue input.
#[derive(Clone, Copy, PartialEq, Eq, Structural, Debug)]
pub enum State {
    Paused,
    SoftDropping,
    LockingDown,
    LockedDown,
    TickingDown,
    GameOver,
}

} // verus!

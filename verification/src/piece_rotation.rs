use vstd::prelude::*;

use crate::Offset;

verus! {

/// The four facings of a piece, cyclic: N advances to E, E to S, S to W,
/// and W back to N.
#[derive(Clone, Copy, PartialEq, Eq, Structural, Debug)]
pub enum Rotation {
    N,
    E,
    S,
    W,
}

/// The pure 90-degree rotation about the origin that a facing applies to a
/// piece-local cell: N is the identity, S negates both axes, E maps
/// (x, y) to (y, -x), and W maps (x, y) to (-y, x).
pub open spec fn rotated_spec(r: Rotation, x: int, y: int) -> (int, int) {
    match r {
        Rotation::N => (x, y),
        Rotation::E => (y, -x),
        Rotation::S => (-x, -y),
        Rotation::W => (-y, x),
    }
}

/// The recentering offset of a facing, before scaling by (grid size - 1):
/// rotation is computed about the origin while the shape tables are laid out
/// from the bounding box's corner, so every facing but N must shift the
/// rotated cells back into the box.
pub open spec fn intrinsic_offset_spec(r: Rotation) -> (int, int) {
    match r {
        Rotation::N => (0, 0),
        Rotation::E => (0, 1),
        Rotation::S => (1, 1),
        Rotation::W => (1, 0),
    }
}

/// The successor of a facing in the N -> E -> S -> W -> N cycle.
pub open spec fn next_rotation_spec(r: Rotation) -> Rotation {
    match r {
        Rotation::N => Rotation::E,
        Rotation::E => Rotation::S,
        Rotation::S => Rotation::W,
        Rotation::W => Rotation::N,
    }
}

impl Rotation {
    pub fn intrinsic_offset(&self) -> (r: Offset)
        ensures
            (r.x as int, r.y as int) == intrinsic_offset_spec(*self),
    {
        match self {
            Rotation::N => Offset { x: 0, y: 0 },
            Rotation::E => Offset { x: 0, y: 1 },
            Rotation::S => Offset { x: 1, y: 1 },
            Rotation::W => Offset { x: 1, y: 0 },
        }
    }

    pub fn next_rotation(&self) -> (r: Rotation)
        ensures
            r == next_rotation_spec(*self),
    {
        match self {
            Rotation::N => Rotation::E,
            Rotation::E => Rotation::S,
            Rotation::S => Rotation::W,
            Rotation::W => Rotation::N,
        }
    }
}

/// Rotate a piece-local cell by a facing.
pub fn rotated(o: Offset, r: Rotation) -> (res: Offset)
    requires
        o.x > isize::MIN,
        o.y > isize::MIN,
    ensures
        (res.x as int, res.y as int) == rotated_spec(r, o.x as int, o.y as int),
{
    match r {
        Rotation::N => o,
        Rotation::E => Offset { x: o.y, y: -o.x },
        Rotation::S => Offset { x: -o.x, y: -o.y },
        Rotation::W => Offset { x: -o.y, y: o.x },
    }
}

/// Advancing a facing four times returns it to itself: four quarter turns
/// are a full turn.
pub proof fn lemma_rotation_cycle(r: Rotation)
    ensures
        next_rotation_spec(next_rotation_spec(next_rotation_spec(next_rotation_spec(r)))) == r,
{
}

} // verus!

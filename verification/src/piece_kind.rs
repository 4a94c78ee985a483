use vstd::prelude::*;

use crate::color::TetriminoColor;
use crate::Offset;

verus! {

/// The seven piece shapes.
#[derive(Clone, Copy, PartialEq, Eq, Structural, Debug)]
pub enum PieceKind {
    O,
    I,
    T,
    L,
    J,
    S,
    Z,
}

/// The canonical north-facing cells of a kind, exactly four offsets laid out
/// from the corner of the kind's bounding box. These values are the
/// authoritative shape table of the classic rule set.
pub open spec fn kind_cells_spec(k: PieceKind) -> Seq<(int, int)> {
    match k {
        PieceKind::O => seq![(1, 1), (1, 2), (2, 1), (2, 2)],
        PieceKind::I => seq![(0, 2), (1, 2), (2, 2), (3, 2)],
        PieceKind::T => seq![(0, 1), (1, 1), (2, 1), (1, 2)],
        PieceKind::L => seq![(0, 1), (1, 1), (2, 1), (2, 2)],
        PieceKind::J => seq![(0, 2), (0, 1), (1, 1), (2, 1)],
        PieceKind::S => seq![(0, 1), (1, 1), (1, 2), (2, 2)],
        PieceKind::Z => seq![(0, 2), (1, 2), (1, 1), (2, 1)],
    }
}

/// The side of a kind's square bounding box: 4 for I, 3 for every other kind.
pub open spec fn grid_size_spec(k: PieceKind) -> int {
    match k {
        PieceKind::I => 4,
        _ => 3,
    }
}

/// The fixed display color of a kind.
pub open spec fn color_spec(k: PieceKind) -> TetriminoColor {
    match k {
        PieceKind::O => TetriminoColor::Yellow,
        PieceKind::I => TetriminoColor::Cyan,
        PieceKind::T => TetriminoColor::Purple,
        PieceKind::L => TetriminoColor::Orange,
        PieceKind::J => TetriminoColor::Blue,
        PieceKind::S => TetriminoColor::Green,
        PieceKind::Z => TetriminoColor::Red,
    }
}

/// The width of a kind's north-facing shape: 2 for O, 4 for I, 3 otherwise.
pub open spec fn north_width_spec(k: PieceKind) -> int {
    match k {
        PieceKind::O => 2,
        PieceKind::I => 4,
        _ => 3,
    }
}

/// The height of a kind's north-facing shape: 2 for O, 1 for I, 2 otherwise.
pub open spec fn north_height_spec(k: PieceKind) -> int {
    match k {
        PieceKind::O => 2,
        PieceKind::I => 1,
        _ => 2,
    }
}

/// The seven kinds, each exactly once, in catalogue order.
pub open spec fn all_kinds_spec() -> Seq<PieceKind> {
    seq![
        PieceKind::O,
        PieceKind::I,
        PieceKind::T,
        PieceKind::L,
        PieceKind::J,
        PieceKind::S,
        PieceKind::Z,
    ]
}

/// The kind a random draw in 0..7 stands for.
pub open spec fn kind_from_index_spec(i: int) -> PieceKind {
    if i == 0 {
        PieceKind::I
    } else if i == 1 {
        PieceKind::J
    } else if i == 2 {
        PieceKind::L
    } else if i == 3 {
        PieceKind::O
    } else if i == 4 {
        PieceKind::S
    } else if i == 5 {
        PieceKind::T
    } else {
        PieceKind::Z
    }
}

impl PieceKind {
    /// The kind's north-facing cells, in shape-table order.
    pub fn cells(&self) -> (r: Vec<Offset>)
        ensures
            r@.len() == 4,
            forall|i: int|
                0 <= i < 4 ==> ((#[trigger] r@[i]).x as int, r@[i].y as int)
                    == kind_cells_spec(*self)[i],
    {
        let mut r: Vec<Offset> = Vec::new();
        match self {
            PieceKind::O => {
                r.push(Offset { x: 1, y: 1 });
                r.push(Offset { x: 1, y: 2 });
                r.push(Offset { x: 2, y: 1 });
                r.push(Offset { x: 2, y: 2 });
            },
            PieceKind::I => {
                r.push(Offset { x: 0, y: 2 });
                r.push(Offset { x: 1, y: 2 });
                r.push(Offset { x: 2, y: 2 });
                r.push(Offset { x: 3, y: 2 });
            },
            PieceKind::T => {
                r.push(Offset { x: 0, y: 1 });
                r.push(Offset { x: 1, y: 1 });
                r.push(Offset { x: 2, y: 1 });
                r.push(Offset { x: 1, y: 2 });
            },
            PieceKind::L => {
                r.push(Offset { x: 0, y: 1 });
                r.push(Offset { x: 1, y: 1 });
                r.push(Offset { x: 2, y: 1 });
                r.push(Offset { x: 2, y: 2 });
            },
            PieceKind::J => {
                r.push(Offset { x: 0, y: 2 });
                r.push(Offset { x: 0, y: 1 });
                r.push(Offset { x: 1, y: 1 });
                r.push(Offset { x: 2, y: 1 });
            },
            PieceKind::S => {
                r.push(Offset { x: 0, y: 1 });
                r.push(Offset { x: 1, y: 1 });
                r.push(Offset { x: 1, y: 2 });
                r.push(Offset { x: 2, y: 2 });
            },
            PieceKind::Z => {
                r.push(Offset { x: 0, y: 2 });
                r.push(Offset { x: 1, y: 2 });
                r.push(Offset { x: 1, y: 1 });
                r.push(Offset { x: 2, y: 1 });
            },
        }
        r
    }

    /// The side of the kind's square bounding box.
    pub fn grid_size(&self) -> (r: isize)
        ensures
            r as int == grid_size_spec(*self),
    {
        match self {
            PieceKind::I => 4,
            _ => 3,
        }
    }

    /// The kind's fixed display color.
    pub fn color(&self) -> (r: TetriminoColor)
        ensures
            r == color_spec(*self),
    {
        match self {
            PieceKind::O => TetriminoColor::Yellow,
            PieceKind::I => TetriminoColor::Cyan,
            PieceKind::T => TetriminoColor::Purple,
            PieceKind::L => TetriminoColor::Orange,
            PieceKind::J => TetriminoColor::Blue,
            PieceKind::S => TetriminoColor::Green,
            PieceKind::Z => TetriminoColor::Red,
        }
    }

    /// The width of the kind's north-facing shape.
    pub fn north_width(&self) -> (r: isize)
        ensures
            r as int == north_width_spec(*self),
    {
        match self {
            PieceKind::O => 2,
            PieceKind::I => 4,
            _ => 3,
        }
    }

    /// The height of the kind's north-facing shape.
    pub fn north_height(&self) -> (r: isize)
        ensures
            r as int == north_height_spec(*self),
    {
        match self {
            PieceKind::O => 2,
            PieceKind::I => 1,
            _ => 2,
        }
    }

    /// Every kind once, in catalogue order.
    pub fn all_kinds() -> (r: Vec<PieceKind>)
        ensures
            r@ == all_kinds_spec(),
    {
        let mut r: Vec<PieceKind> = Vec::new();
        r.push(PieceKind::O);
        r.push(PieceKind::I);
        r.push(PieceKind::T);
        r.push(PieceKind::L);
        r.push(PieceKind::J);
        r.push(PieceKind::S);
        r.push(PieceKind::Z);
        proof {
            assert(r@ =~= all_kinds_spec());
        }
        r
    }

    /// The kind a random draw in 0..7 stands for.
    pub fn from_index(i: u8) -> (r: PieceKind)
        requires
            i < 7,
        ensures
            r == kind_from_index_spec(i as int),
    {
        if i == 0 {
            PieceKind::I
        } else if i == 1 {
            PieceKind::J
        } else if i == 2 {
            PieceKind::L
        } else if i == 3 {
            PieceKind::O
        } else if i == 4 {
            PieceKind::S
        } else if i == 5 {
            PieceKind::T
        } else {
            PieceKind::Z
        }
    }
}

} // verus!

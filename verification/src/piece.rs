use vstd::prelude::*;

use crate::piece_kind::{grid_size_spec, kind_cells_spec, PieceKind};
use crate::piece_rotation::{intrinsic_offset_spec, next_rotation_spec, rotated, rotated_spec,
    Rotation};
use crate::Offset;

verus! {

/// A tetrimino in play: its shape, its field-absolute anchor, and its facing.
#[derive(Clone, Copy, PartialEq, Eq, Structural, Debug)]
pub struct Piece {
    pub kind: PieceKind,
    pub position: Offset,
    pub rotation: Rotation,
}

/// One shape-table cell rotated and recentered for a facing. The O piece
/// never rotates: its four cells are symmetric inside the bounding box.
/// Every other kind rotates about the origin and is shifted back into its
/// bounding box by the facing's intrinsic offset scaled by (grid size - 1).
pub open spec fn local_cell_spec(k: PieceKind, r: Rotation, c: (int, int)) -> (int, int) {
    if k == PieceKind::O {
        c
    } else {
        let rot = rotated_spec(r, c.0, c.1);
        let io = intrinsic_offset_spec(r);
        let s = grid_size_spec(k) - 1;
        (rot.0 + io.0 * s, rot.1 + io.1 * s)
    }
}

/// The four rotated, recentered cells of a kind at a facing, in shape-table
/// order, still relative to the bounding box corner.
pub open spec fn local_cells_spec(k: PieceKind, r: Rotation) -> Seq<(int, int)> {
    Seq::new(4, |i: int| local_cell_spec(k, r, kind_cells_spec(k)[i]))
}

/// The four field-absolute cells of a piece, in shape-table order, as
/// mathematical integers: they may be negative or reach beyond the field.
pub open spec fn abs_cells_spec(p: Piece) -> Seq<(int, int)> {
    Seq::new(
        4,
        |i: int|
            (
                local_cells_spec(p.kind, p.rotation)[i].0 + p.position.x,
                local_cells_spec(p.kind, p.rotation)[i].1 + p.position.y,
            ),
    )
}

/// One shape-table cell stays inside the kind's bounding box after
/// rotation and recentering.
proof fn lemma_local_cell_bounds_one(k: PieceKind, r: Rotation, c: (int, int))
    requires
        0 <= c.0 <= grid_size_spec(k) - 1,
        0 <= c.1 <= grid_size_spec(k) - 1,
    ensures
        0 <= local_cell_spec(k, r, c).0 <= grid_size_spec(k) - 1,
        0 <= local_cell_spec(k, r, c).1 <= grid_size_spec(k) - 1,
{
    let s = grid_size_spec(k) - 1;
    if k != PieceKind::O {
        match r {
            Rotation::N => {
                assert(local_cell_spec(k, r, c) == (c.0, c.1));
            },
            Rotation::E => {
                assert(local_cell_spec(k, r, c) == (c.1, s - c.0));
            },
            Rotation::S => {
                assert(local_cell_spec(k, r, c) == (s - c.0, s - c.1));
            },
            Rotation::W => {
                assert(local_cell_spec(k, r, c) == (s - c.1, c.0));
            },
        }
    }
}

/// Every shape-table cell of a kind lies inside its bounding box.
proof fn lemma_kind_cells_bounds(k: PieceKind, i: int)
    requires
        0 <= i < 4,
    ensures
        0 <= kind_cells_spec(k)[i].0 <= grid_size_spec(k) - 1,
        0 <= kind_cells_spec(k)[i].1 <= grid_size_spec(k) - 1,
{
    if i == 0 {
    } else if i == 1 {
    } else if i == 2 {
    } else {
        assert(i == 3);
    }
}

/// Every rotated, recentered cell stays inside the kind's bounding box.
pub proof fn lemma_local_cells_bounds(k: PieceKind, r: Rotation)
    ensures
        forall|i: int|
            0 <= i < 4 ==> 0 <= (#[trigger] local_cells_spec(k, r)[i]).0 <= grid_size_spec(k) - 1
                && 0 <= local_cells_spec(k, r)[i].1 <= grid_size_spec(k) - 1,
{
    assert forall|i: int|
        0 <= i < 4 implies 0 <= (#[trigger] local_cells_spec(k, r)[i]).0 <= grid_size_spec(k) - 1
        && 0 <= local_cells_spec(k, r)[i].1 <= grid_size_spec(k) - 1 by {
        assert(local_cells_spec(k, r)[i] == local_cell_spec(k, r, kind_cells_spec(k)[i]));
        lemma_kind_cells_bounds(k, i);
        lemma_local_cell_bounds_one(k, r, kind_cells_spec(k)[i]);
    }
}

/// The absolute cells are the local cells translated by the anchor.
pub proof fn lemma_abs_cells(p: Piece, i: int)
    requires
        0 <= i < 4,
    ensures
        abs_cells_spec(p)[i] == (
            local_cells_spec(p.kind, p.rotation)[i].0 + p.position.x,
            local_cells_spec(p.kind, p.rotation)[i].1 + p.position.y,
        ),
{
}

impl Piece {
    /// The anchor is far enough from the ends of the machine range that
    /// adding a bounding-box-local cell can never overflow.
    pub open spec fn in_bounds(self) -> bool {
        &&& self.position.x >= isize::MIN + 8
        &&& self.position.x <= isize::MAX - 8
        &&& self.position.y >= isize::MIN + 8
        &&& self.position.y <= isize::MAX - 8
    }

    /// A new piece translated by the given offset; the original is untouched.
    pub fn moved_by(&self, offset: Offset) -> (r: Piece)
        requires
            isize::MIN <= self.position.x + offset.x <= isize::MAX,
            isize::MIN <= self.position.y + offset.y <= isize::MAX,
        ensures
            r.kind == self.kind,
            r.rotation == self.rotation,
            r.position.x as int == self.position.x + offset.x,
            r.position.y as int == self.position.y + offset.y,
    {
        Piece {
            position: Offset { x: self.position.x + offset.x, y: self.position.y + offset.y },
            ..*self
        }
    }

    /// Rotate one shape-table cell into this piece's facing, still relative
    /// to the bounding box corner.
    pub fn rotator(&self, cell: Offset) -> (r: Offset)
        requires
            isize::MIN + 4 <= cell.x <= isize::MAX - 4,
            isize::MIN + 4 <= cell.y <= isize::MAX - 4,
        ensures
            (r.x as int, r.y as int) == local_cell_spec(
                self.kind,
                self.rotation,
                (cell.x as int, cell.y as int),
            ),
    {
        match self.kind {
            PieceKind::O => cell,
            _ => {
                let rot = rotated(cell, self.rotation);
                let io = self.rotation.intrinsic_offset();
                let s = self.kind.grid_size() - 1;
                Offset { x: rot.x + io.x * s, y: rot.y + io.y * s }
            },
        }
    }

    /// Translate a rotated cell by this piece's anchor.
    pub fn positioner(&self, cell: Offset) -> (r: Offset)
        requires
            isize::MIN <= cell.x + self.position.x <= isize::MAX,
            isize::MIN <= cell.y + self.position.y <= isize::MAX,
        ensures
            r.x as int == cell.x + self.position.x,
            r.y as int == cell.y + self.position.y,
    {
        Offset { x: cell.x + self.position.x, y: cell.y + self.position.y }
    }

    /// The four field-absolute cells of this piece, in shape-table order.
    /// They are offsets, not field coordinates: they may be negative or
    /// beyond the field's bounds.
    pub fn matrix_offsets(&self) -> (r: Vec<Offset>)
        requires
            self.in_bounds(),
        ensures
            r@.len() == 4,
            forall|i: int|
                0 <= i < 4 ==> ((#[trigger] r@[i]).x as int, r@[i].y as int)
                    == abs_cells_spec(*self)[i],
    {
        proof {
            lemma_local_cells_bounds(self.kind, self.rotation);
        }
        let base = self.kind.cells();
        let mut r: Vec<Offset> = Vec::new();
        let mut i: usize = 0;
        while i < 4
            invariant
                self.in_bounds(),
                base@.len() == 4,
                forall|j: int|
                    0 <= j < 4 ==> ((#[trigger] base@[j]).x as int, base@[j].y as int)
                        == kind_cells_spec(self.kind)[j],
                i <= 4,
                r@.len() == i,
                forall|j: int|
                    0 <= j < i ==> ((#[trigger] r@[j]).x as int, r@[j].y as int)
                        == abs_cells_spec(*self)[j],
                forall|j: int|
                    0 <= j < 4 ==> 0 <= (#[trigger] local_cells_spec(self.kind, self.rotation)[j]).0
                        <= 3 && 0 <= local_cells_spec(self.kind, self.rotation)[j].1 <= 3,
            decreases 4 - i,
        {
            let rotated_cell = self.rotator(base[i]);
            proof {
                assert(local_cells_spec(self.kind, self.rotation)[i as int] == local_cell_spec(
                    self.kind,
                    self.rotation,
                    kind_cells_spec(self.kind)[i as int],
                ));
                assert(abs_cells_spec(*self)[i as int] == (
                    local_cells_spec(self.kind, self.rotation)[i as int].0 + self.position.x,
                    local_cells_spec(self.kind, self.rotation)[i as int].1 + self.position.y,
                ));
            }
            let placed = self.positioner(rotated_cell);
            r.push(placed);
            i += 1;
        }
        r
    }
}


/// Advancing the facing four times leaves a piece's absolute cells as
/// they were: four quarter turns are the identity.
pub proof fn lemma_four_rotations_identity(p: Piece)
    ensures
        abs_cells_spec(
            Piece {
                rotation: next_rotation_spec(
                    next_rotation_spec(next_rotation_spec(next_rotation_spec(p.rotation))),
                ),
                ..p
            },
        ) == abs_cells_spec(p),
{
    crate::piece_rotation::lemma_rotation_cycle(p.rotation);
    assert(Piece {
        rotation: next_rotation_spec(
            next_rotation_spec(next_rotation_spec(next_rotation_spec(p.rotation))),
        ),
        ..p
    } == p);
}

/// The O piece's cells are the same under every facing: its rotation is
/// a no-op.
pub proof fn lemma_o_rotation_noop(p: Piece, r: Rotation)
    requires
        p.kind == PieceKind::O,
    ensures
        abs_cells_spec(Piece { rotation: r, ..p }) == abs_cells_spec(p),
{
    let q = Piece { rotation: r, ..p };
    assert forall|i: int| 0 <= i < 4 implies abs_cells_spec(q)[i] == abs_cells_spec(p)[i] by {
        lemma_abs_cells(p, i);
        lemma_abs_cells(q, i);
        assert(local_cells_spec(p.kind, p.rotation)[i] == local_cell_spec(
            p.kind,
            p.rotation,
            kind_cells_spec(p.kind)[i],
        ));
        assert(local_cells_spec(q.kind, q.rotation)[i] == local_cell_spec(
            q.kind,
            q.rotation,
            kind_cells_spec(q.kind)[i],
        ));
    }
    assert(abs_cells_spec(q) =~= abs_cells_spec(p));
}

} // verus!

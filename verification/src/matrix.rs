use vstd::prelude::*;

use crate::color::TetriminoColor;
use crate::piece_kind::color_spec;
use crate::geometry::GridIncrement;
use crate::piece::{abs_cells_spec, Piece};
use crate::Coordinate;

verus! {

/// The playing field: a fixed-capacity grid of optionally colored cells.
/// The origin is the bottom-left corner; storage is row-major, rows
/// bottom-to-top, so the cell at (x, y) lives at linear index y * width + x.
pub struct Matrix {
    pub width: usize,
    pub height: usize,
    pub matrix: Vec<Option<TetriminoColor>>,
}

/// Index arithmetic stays inside the backing storage.
proof fn lemma_idx_bounds(w: int, h: int, x: int, y: int)
    requires
        1 <= w,
        0 <= x < w,
        0 <= y < h,
    ensures
        0 <= y * w + x < h * w,
{
    assert(y * w + x < h * w) by (nonlinear_arith)
        requires
            0 <= x < w,
            0 <= y < h,
    ;
    assert(0 <= y * w + x) by (nonlinear_arith)
        requires
            0 <= x,
            0 <= y,
            1 <= w,
    ;
}

/// Distinct coordinates have distinct linear indices.
proof fn lemma_idx_injective(w: int, x1: int, y1: int, x2: int, y2: int)
    requires
        0 <= x1 < w,
        0 <= x2 < w,
        0 <= y1,
        0 <= y2,
        y1 * w + x1 == y2 * w + x2,
    ensures
        x1 == x2,
        y1 == y2,
{
    assert(x1 == x2 && y1 == y2) by (nonlinear_arith)
        requires
            0 <= x1 < w,
            0 <= x2 < w,
            0 <= y1,
            0 <= y2,
            y1 * w + x1 == y2 * w + x2,
    ;
}

impl Matrix {
    /// The storage matches the advertised dimensions.
    pub open spec fn wf(self) -> bool {
        &&& 1 <= self.width
        &&& self.width * self.height <= usize::MAX
        &&& self.matrix@.len() == self.width * self.height
    }

    /// The cell at a grid position, as the mathematical view of the storage.
    pub open spec fn cell(self, x: int, y: int) -> Option<TetriminoColor> {
        self.matrix@[y * self.width + x]
    }

    /// Whether the cell at a grid position holds a color.
    pub open spec fn occupied(self, x: int, y: int) -> bool {
        self.cell(x, y) is Some
    }

    /// Whether a position lies inside the visible field.
    pub open spec fn in_field(self, x: int, y: int) -> bool {
        0 <= x < self.width && 0 <= y < self.height
    }

    /// Whether every cell of a row is occupied.
    pub open spec fn row_full(self, y: int) -> bool {
        forall|x: int| 0 <= x < self.width ==> self.occupied(x, y)
    }

    /// Whether no cell of a row is occupied.
    pub open spec fn row_empty(self, y: int) -> bool {
        forall|x: int| 0 <= x < self.width ==> !self.occupied(x, y)
    }

    /// Both matrices have the same dimensions.
    pub open spec fn same_dims(self, other: Matrix) -> bool {
        self.width == other.width && self.height == other.height
    }

    /// An empty field of the given dimensions.
    pub fn blank(width: usize, height: usize) -> (r: Matrix)
        requires
            1 <= width,
            width * height <= usize::MAX,
        ensures
            r.wf(),
            r.width == width,
            r.height == height,
            forall|x: int, y: int| r.in_field(x, y) ==> !r.occupied(x, y),
    {
        let total: usize = width * height;
        let mut cells: Vec<Option<TetriminoColor>> = Vec::new();
        let mut i: usize = 0;
        while i < total
            invariant
                total == width * height,
                1 <= width,
                i <= total,
                cells@.len() == i,
                forall|j: int| 0 <= j < i ==> cells@[j] is None,
            decreases total - i,
        {
            cells.push(None);
            i += 1;
        }
        let r = Matrix { width, height, matrix: cells };
        proof {
            assert forall|x: int, y: int| r.in_field(x, y) implies !r.occupied(x, y) by {
                lemma_idx_bounds(width as int, height as int, x, y);
                assert(0 <= y * width + x < height * width);
                assert(height * width == width * height) by (nonlinear_arith);
                assert(r.matrix@.len() == width * height);
                assert(r.matrix@[y * width + x] is None);
                assert(r.cell(x, y) is None);
            }
        }
        r
    }

    /// Whether a position is inside the field.
    fn on_matrix(&self, coord: Coordinate) -> (r: bool)
        ensures
            r == (coord.x < self.width && coord.y < self.height),
    {
        self.valid_coord(coord) && coord.y < self.height
    }

    /// Whether a position is horizontally inside the field; the row may lie
    /// above it, since a piece can hover above the visible rows.
    pub fn valid_coord(&self, coord: Coordinate) -> (r: bool)
        ensures
            r == (coord.x < self.width),
    {
        coord.x < self.width
    }

    /// Read the cell at an on-field position.
    pub fn get(&self, coord: Coordinate) -> (r: Option<TetriminoColor>)
        requires
            self.wf(),
            coord.x < self.width,
            coord.y < self.height,
        ensures
            r == self.cell(coord.x as int, coord.y as int),
    {
        proof {
            lemma_idx_bounds(
                self.width as int,
                self.height as int,
                coord.x as int,
                coord.y as int,
            );
        }
        self.matrix[coord.y * self.width + coord.x]
    }

    /// Write the cell at an on-field position; every other cell is kept.
    pub fn set(&mut self, coord: Coordinate, value: Option<TetriminoColor>)
        requires
            old(self).wf(),
            coord.x < old(self).width,
            coord.y < old(self).height,
        ensures
            final(self).wf(),
            final(self).same_dims(*old(self)),
            forall|x: int, y: int|
                final(self).in_field(x, y) ==> final(self).cell(x, y) == (if x == coord.x && y
                    == coord.y {
                    value
                } else {
                    old(self).cell(x, y)
                }),
    {
        proof {
            lemma_idx_bounds(
                self.width as int,
                self.height as int,
                coord.x as int,
                coord.y as int,
            );
        }
        let idx: usize = coord.y * self.width + coord.x;
        self.matrix[idx] = value;
        proof {
            assert forall|x: int, y: int| self.in_field(x, y) implies self.cell(x, y) == (if x
                == coord.x && y == coord.y {
                value
            } else {
                old(self).cell(x, y)
            }) by {
                lemma_idx_bounds(self.width as int, self.height as int, x, y);
                if y * self.width + x == idx {
                    lemma_idx_injective(
                        self.width as int,
                        x,
                        y,
                        coord.x as int,
                        coord.y as int,
                    );
                }
            }
        }
    }

    /// Reset every cell to empty.
    pub fn clear(&mut self)
        requires
            old(self).wf(),
        ensures
            final(self).wf(),
            final(self).same_dims(*old(self)),
            forall|x: int, y: int| final(self).in_field(x, y) ==> !final(self).occupied(x, y),
    {
        let total: usize = self.matrix.len();
        let mut i: usize = 0;
        while i < total
            invariant
                i <= total,
                self.wf(),
                self.matrix@.len() == total,
                self.width == old(self).width,
                self.height == old(self).height,
                forall|j: int| 0 <= j < i ==> self.matrix@[j] is None,
            decreases total - i,
        {
            self.matrix[i] = None;
            i += 1;
        }
        proof {
            assert forall|x: int, y: int| self.in_field(x, y) implies !self.occupied(x, y) by {
                lemma_idx_bounds(self.width as int, self.height as int, x, y);
                assert(0 <= y * self.width + x < self.height * self.width);
                assert(self.height * self.width == self.width * self.height) by (nonlinear_arith);
                assert(self.matrix@[y * self.width + x] is None);
                assert(self.cell(x, y) is None);
            }
        }
    }

    /// The rows of the field, bottom-to-top, each row left-to-right.
    pub fn lines(&self) -> (r: Vec<Vec<Option<TetriminoColor>>>)
        requires
            self.wf(),
        ensures
            r@.len() == self.height,
            forall|y: int|
                0 <= y < self.height ==> (#[trigger] r@[y])@.len() == self.width,
            forall|x: int, y: int|
                self.in_field(x, y) ==> r@[y]@[x] == self.cell(x, y),
    {
        let mut r: Vec<Vec<Option<TetriminoColor>>> = Vec::new();
        let mut y: usize = 0;
        while y < self.height
            invariant
                self.wf(),
                y <= self.height,
                r@.len() == y,
                forall|j: int| 0 <= j < y ==> (#[trigger] r@[j])@.len() == self.width,
                forall|x: int, j: int|
                    0 <= x < self.width && 0 <= j < y ==> r@[j]@[x] == self.cell(x, j),
            decreases self.height - y,
        {
            let mut row: Vec<Option<TetriminoColor>> = Vec::new();
            let mut x: usize = 0;
            while x < self.width
                invariant
                    self.wf(),
                    y < self.height,
                    x <= self.width,
                    row@.len() == x,
                    forall|i: int| 0 <= i < x ==> row@[i] == self.cell(i, y as int),
                decreases self.width - x,
            {
                row.push(self.get(Coordinate { x, y }));
                x += 1;
            }
            r.push(row);
            y += 1;
        }
        r
    }

    /// Whether every absolute cell of a piece has nonnegative coordinates
    /// and lies horizontally inside the field. Rows above the field are
    /// allowed: a piece may hover above the visible rows.
    pub open spec fn piece_cells_ok(self, p: Piece) -> bool {
        forall|i: int|
            0 <= i < 4 ==> 0 <= (#[trigger] abs_cells_spec(p)[i]).0 < self.width && 0
                <= abs_cells_spec(p)[i].1
    }

    /// A cell position that a moving piece may not enter: beyond the side
    /// walls, below the floor, or over an occupied on-field cell.
    pub open spec fn cell_blocked(self, c: (int, int)) -> bool {
        ||| c.0 < 0
        ||| c.0 >= self.width
        ||| c.1 < 0
        ||| (c.1 < self.height && self.occupied(c.0, c.1))
    }

    /// A cell position on which a piece may rest permanently: on the field
    /// and unoccupied.
    pub open spec fn cell_free(self, c: (int, int)) -> bool {
        0 <= c.0 < self.width && 0 <= c.1 < self.height && !self.occupied(c.0, c.1)
    }

    /// A cell position that invalidates a rotation: beyond the side walls,
    /// or over an occupied on-field cell. A negative row is tolerated here.
    pub open spec fn cell_out_or_overlapping(self, c: (int, int)) -> bool {
        ||| c.0 < 0
        ||| c.0 >= self.width
        ||| (0 <= c.1 < self.height && self.occupied(c.0, c.1))
    }

    /// Whether some cell of the piece is out of bounds or over an occupied
    /// on-field cell; rows above the field do not clip.
    pub open spec fn clipping_spec(self, p: Piece) -> bool {
        exists|i: int| 0 <= i < 4 && self.cell_blocked(#[trigger] abs_cells_spec(p)[i])
    }

    /// Whether every cell of the piece is on the field and unoccupied.
    pub open spec fn placeable_spec(self, p: Piece) -> bool {
        forall|i: int| 0 <= i < 4 ==> self.cell_free(#[trigger] abs_cells_spec(p)[i])
    }

    /// Whether some cell of the piece is beyond the side walls or over an
    /// occupied on-field cell; rows below or above the field are tolerated.
    pub open spec fn out_of_bounds_or_overlap_spec(self, p: Piece) -> bool {
        exists|i: int| 0 <= i < 4 && self.cell_out_or_overlapping(#[trigger] abs_cells_spec(p)[i])
    }

    /// The four absolute field coordinates of a piece, in shape-table order,
    /// or nothing if a cell would be negative or beyond the side walls.
    /// Rows above the field are allowed.
    pub fn piece_cells(&self, piece: &Piece) -> (r: Option<Vec<Coordinate>>)
        requires
            self.wf(),
            piece.in_bounds(),
        ensures
            r is Some <==> self.piece_cells_ok(*piece),
            r matches Some(cs) ==> cs@.len() == 4 && forall|i: int|
                0 <= i < 4 ==> ((#[trigger] cs@[i]).x as int, cs@[i].y as int)
                    == abs_cells_spec(*piece)[i],
    {
        let offsets = piece.matrix_offsets();
        let mut coords: Vec<Coordinate> = Vec::new();
        let mut i: usize = 0;
        while i < 4
            invariant
                self.wf(),
                offsets@.len() == 4,
                forall|j: int|
                    0 <= j < 4 ==> ((#[trigger] offsets@[j]).x as int, offsets@[j].y as int)
                        == abs_cells_spec(*piece)[j],
                i <= 4,
                coords@.len() == i,
                forall|j: int|
                    0 <= j < i ==> ((#[trigger] coords@[j]).x as int, coords@[j].y as int)
                        == abs_cells_spec(*piece)[j],
                forall|j: int|
                    0 <= j < i ==> 0 <= (#[trigger] abs_cells_spec(*piece)[j]).0 < self.width && 0
                        <= abs_cells_spec(*piece)[j].1,
            decreases 4 - i,
        {
            let o = offsets[i];
            if o.x < 0 || o.y < 0 {
                return None;
            }
            let ux = o.x as usize;
            let uy = o.y as usize;
            if ux >= self.width {
                return None;
            }
            coords.push(Coordinate { x: ux, y: uy });
            i += 1;
        }
        Some(coords)
    }

    /// Whether the piece is somewhere it may not be: out of bounds (beyond
    /// the side walls or below the floor) or over an occupied on-field
    /// cell. Rows above the field do not clip: a piece may hover there.
    pub fn is_clipping(&self, piece: &Piece) -> (r: bool)
        requires
            self.wf(),
            piece.in_bounds(),
        ensures
            r == self.clipping_spec(*piece),
    {
        let cells = match self.piece_cells(piece) {
            Some(cells) => cells,
            None => {
                return true;
            },
        };
        let mut i: usize = 0;
        while i < 4
            invariant
                self.wf(),
                cells@.len() == 4,
                forall|j: int|
                    0 <= j < 4 ==> ((#[trigger] cells@[j]).x as int, cells@[j].y as int)
                        == abs_cells_spec(*piece)[j],
                self.piece_cells_ok(*piece),
                i <= 4,
                forall|j: int|
                    0 <= j < i ==> !self.cell_blocked(#[trigger] abs_cells_spec(*piece)[j]),
            decreases 4 - i,
        {
            let coord = cells[i];
            if !self.valid_coord(coord) || (self.on_matrix(coord) && self.get(coord).is_some()) {
                return true;
            }
            i += 1;
        }
        false
    }

    /// Whether the piece may rest permanently where it is: every cell on
    /// the field and unoccupied. Stricter than clipping, which tolerates
    /// rows above the field; this governs game over.
    pub fn is_placeable(&self, piece: &Piece) -> (r: bool)
        requires
            self.wf(),
            piece.in_bounds(),
        ensures
            r == self.placeable_spec(*piece),
    {
        let cells = match self.piece_cells(piece) {
            Some(cells) => cells,
            None => {
                return false;
            },
        };
        let mut i: usize = 0;
        while i < 4
            invariant
                self.wf(),
                cells@.len() == 4,
                forall|j: int|
                    0 <= j < 4 ==> ((#[trigger] cells@[j]).x as int, cells@[j].y as int)
                        == abs_cells_spec(*piece)[j],
                self.piece_cells_ok(*piece),
                i <= 4,
                forall|j: int|
                    0 <= j < i ==> self.cell_free(#[trigger] abs_cells_spec(*piece)[j]),
            decreases 4 - i,
        {
            let coord = cells[i];
            if !(self.on_matrix(coord) && self.get(coord).is_none()) {
                return false;
            }
            i += 1;
        }
        true
    }

    /// Whether a rotation would leave the piece beyond the side walls or
    /// over an occupied on-field cell. Rows below the floor are tolerated
    /// here, unlike clipping.
    pub fn has_piece_out_of_bounds_coords(&self, piece: &Piece) -> (r: bool)
        requires
            self.wf(),
            piece.in_bounds(),
        ensures
            r == self.out_of_bounds_or_overlap_spec(*piece),
    {
        let offsets = piece.matrix_offsets();
        let mut i: usize = 0;
        while i < 4
            invariant
                self.wf(),
                offsets@.len() == 4,
                forall|j: int|
                    0 <= j < 4 ==> ((#[trigger] offsets@[j]).x as int, offsets@[j].y as int)
                        == abs_cells_spec(*piece)[j],
                i <= 4,
                forall|j: int|
                    0 <= j < i ==> !self.cell_out_or_overlapping(
                        #[trigger] abs_cells_spec(*piece)[j],
                    ),
            decreases 4 - i,
        {
            let o = offsets[i];
            if o.x < 0 || o.x as usize >= self.width {
                return true;
            }
            if o.y >= 0 {
                let coord = Coordinate { x: o.x as usize, y: o.y as usize };
                if self.on_matrix(coord) && self.get(coord).is_some() {
                    proof {
                        assert(self.cell_out_or_overlapping(abs_cells_spec(*piece)[i as int]));
                    }
                    return true;
                }
            }
            i += 1;
        }
        false
    }

    /// Stamp the piece's color into every cell it occupies; every other
    /// cell is kept. The piece must be placeable: the caller checks first,
    /// since an unplaceable cursor signals game over rather than an error.
    pub fn place_piece(&mut self, piece: Piece)
        requires
            old(self).wf(),
            piece.in_bounds(),
            old(self).placeable_spec(piece),
        ensures
            final(self).wf(),
            final(self).same_dims(*old(self)),
            forall|x: int, y: int|
                final(self).in_field(x, y) ==> final(self).cell(x, y) == (if abs_cells_spec(
                    piece,
                ).contains((x, y)) {
                    Some(color_spec(piece.kind))
                } else {
                    old(self).cell(x, y)
                }),
    {
        let color = piece.kind.color();
        let cells = self.piece_cells(&piece).unwrap();
        let mut i: usize = 0;
        while i < 4
            invariant
                self.wf(),
                self.same_dims(*old(self)),
                cells@.len() == 4,
                forall|j: int|
                    0 <= j < 4 ==> ((#[trigger] cells@[j]).x as int, cells@[j].y as int)
                        == abs_cells_spec(piece)[j],
                old(self).placeable_spec(piece),
                color == color_spec(piece.kind),
                i <= 4,
                forall|x: int, y: int|
                    self.in_field(x, y) ==> self.cell(x, y) == (if exists|j: int|
                        0 <= j < i && abs_cells_spec(piece)[j] == (x, y) {
                        Some(color_spec(piece.kind))
                    } else {
                        old(self).cell(x, y)
                    }),
            decreases 4 - i,
        {
            let coord = cells[i];
            proof {
                assert(self.cell_free(abs_cells_spec(piece)[i as int]));
            }
            self.set(coord, Some(color));
            i += 1;
        }
        proof {
            assert forall|x: int, y: int| self.in_field(x, y) implies self.cell(x, y) == (
            if abs_cells_spec(piece).contains((x, y)) {
                Some(color_spec(piece.kind))
            } else {
                old(self).cell(x, y)
            }) by {
                if abs_cells_spec(piece).contains((x, y)) {
                    let j = choose|j: int|
                        0 <= j < abs_cells_spec(piece).len() && abs_cells_spec(piece)[j] == (x, y);
                    assert(0 <= j < 4 && abs_cells_spec(piece)[j] == (x, y));
                } else {
                    assert(forall|j: int|
                        0 <= j < 4 ==> (#[trigger] abs_cells_spec(piece)[j]) != (x, y));
                }
            }
        }
    }
}

/// Whether a row index occurs in a list of rows.
pub open spec fn seq_has_row(c: Seq<usize>, y: int) -> bool {
    exists|i: int| 0 <= i < c.len() && c[i] == y
}

/// Whether a list of rows is strictly ascending.
pub open spec fn strictly_ascending(c: Seq<usize>) -> bool {
    forall|i: int, j: int| 0 <= i < j < c.len() ==> c[i] < c[j]
}

/// How many rows of a strictly ascending list lie below row `y`.
pub open spec fn cleared_below(c: Seq<usize>, y: int) -> int
    decreases c.len(),
{
    if c.len() == 0 {
        0
    } else if c[0] < y {
        1 + cleared_below(c.drop_first(), y)
    } else {
        0
    }
}

/// In a strictly ascending list, the entry at position i is at least i.
pub proof fn lemma_ascending_at_least(c: Seq<usize>, i: int)
    requires
        strictly_ascending(c),
        0 <= i < c.len(),
    ensures
        c[i] >= i,
    decreases i,
{
    if i > 0 {
        lemma_ascending_at_least(c, i - 1);
        assert(c[i - 1] < c[i]);
    }
}

/// The tail of a strictly ascending list is strictly ascending, and its
/// entries exceed the head.
proof fn lemma_ascending_tail(c: Seq<usize>)
    requires
        strictly_ascending(c),
        c.len() > 0,
    ensures
        strictly_ascending(c.drop_first()),
        forall|i: int| 0 <= i < c.drop_first().len() ==> c[0] < (#[trigger] c.drop_first()[i]),
{
    assert forall|i: int| 0 <= i < c.drop_first().len() implies c[0] < (
    #[trigger] c.drop_first()[i]) by {
        assert(c.drop_first()[i] == c[i + 1]);
    }
    assert forall|i: int, j: int| 0 <= i < j < c.drop_first().len() implies (
    #[trigger] c.drop_first()[i]) < (#[trigger] c.drop_first()[j]) by {
        assert(c.drop_first()[i] == c[i + 1]);
        assert(c.drop_first()[j] == c[j + 1]);
    }
}

/// The count of rows below `y` never exceeds the list's length.
proof fn lemma_cb_le_len(c: Seq<usize>, y: int)
    ensures
        0 <= cleared_below(c, y) <= c.len(),
    decreases c.len(),
{
    if c.len() > 0 {
        lemma_cb_le_len(c.drop_first(), y);
    }
}

/// In a strictly ascending list whose entries are all at least `m`, at
/// most `y - m` rows lie below `y`.
proof fn lemma_cb_le(c: Seq<usize>, y: int, m: int)
    requires
        strictly_ascending(c),
        forall|i: int| 0 <= i < c.len() ==> m <= (#[trigger] c[i]),
    ensures
        cleared_below(c, y) <= if y >= m {
            y - m
        } else {
            0
        },
    decreases c.len(),
{
    if c.len() > 0 && c[0] < y {
        lemma_ascending_tail(c);
        lemma_cb_le(c.drop_first(), y, m + 1);
    }
}

/// Stepping the row bound by one counts the row itself if it is listed.
proof fn lemma_cb_step(c: Seq<usize>, y: int)
    requires
        strictly_ascending(c),
    ensures
        cleared_below(c, y + 1) == cleared_below(c, y) + if seq_has_row(c, y) {
            1int
        } else {
            0int
        },
    decreases c.len(),
{
    if c.len() == 0 {
        assert(!seq_has_row(c, y));
    } else {
        lemma_ascending_tail(c);
        if c[0] < y {
            lemma_cb_step(c.drop_first(), y);
            assert(seq_has_row(c, y) == seq_has_row(c.drop_first(), y)) by {
                if seq_has_row(c, y) {
                    let i = choose|i: int| 0 <= i < c.len() && c[i] == y;
                    assert(i != 0);
                    assert(c.drop_first()[i - 1] == y);
                }
                if seq_has_row(c.drop_first(), y) {
                    let i = choose|i: int| 0 <= i < c.drop_first().len() && c.drop_first()[i] == y;
                    assert(c[i + 1] == y);
                }
            }
        } else if c[0] == y {
            assert(seq_has_row(c, y));
            assert(cleared_below(c, y) == 0);
            assert(cleared_below(c.drop_first(), y + 1) == 0) by {
                if c.drop_first().len() > 0 {
                    assert(c.drop_first()[0] == c[1]);
                    assert(c[0] < c[1]);
                }
            }
            assert(cleared_below(c, y + 1) == 1);
        } else {
            assert(c[0] > y);
            assert(!seq_has_row(c, y)) by {
                if seq_has_row(c, y) {
                    let i = choose|i: int| 0 <= i < c.len() && c[i] == y;
                    assert(i != 0 ==> c[0] < c[i]);
                }
            }
            assert(cleared_below(c, y) == 0);
            assert(cleared_below(c, y + 1) == 0);
        }
    }
}

/// Every listed row lying strictly below `h` is counted by `h`.
proof fn lemma_cb_all(c: Seq<usize>, h: int)
    requires
        forall|i: int| 0 <= i < c.len() ==> (#[trigger] c[i]) < h,
    ensures
        cleared_below(c, h) == c.len(),
    decreases c.len(),
{
    if c.len() > 0 {
        assert(c[0] < h);
        assert forall|i: int| 0 <= i < c.drop_first().len() implies (
        #[trigger] c.drop_first()[i]) < h by {
            assert(c.drop_first()[i] == c[i + 1]);
        }
        lemma_cb_all(c.drop_first(), h);
    }
}

/// Every target row below the shifted top is reached by some kept row:
/// the map taking a kept row `ry` to `ry - cleared_below(c, ry)` covers
/// all of `[0, h - cleared_below(c, h))`.
pub proof fn lemma_shift_onto(c: Seq<usize>, h: int, y: int)
    requires
        strictly_ascending(c),
        0 <= y < h - cleared_below(c, h),
    ensures
        exists|ry: int|
            0 <= ry < h && !seq_has_row(c, ry) && y == ry - cleared_below(c, ry),
    decreases h,
{
    lemma_cb_le_len(c, h);
    if h <= 0 {
        assert(cleared_below(c, h) >= 0);
        assert(false);
    } else {
        lemma_cb_step(c, h - 1);
        if seq_has_row(c, h - 1) {
            lemma_shift_onto(c, h - 1, y);
            let ry = choose|ry: int|
                0 <= ry < h - 1 && !seq_has_row(c, ry) && y == ry - cleared_below(c, ry);
            assert(0 <= ry < h && !seq_has_row(c, ry) && y == ry - cleared_below(c, ry));
        } else {
            if y < (h - 1) - cleared_below(c, h - 1) {
                lemma_shift_onto(c, h - 1, y);
                let ry = choose|ry: int|
                    0 <= ry < h - 1 && !seq_has_row(c, ry) && y == ry - cleared_below(c, ry);
                assert(0 <= ry < h && !seq_has_row(c, ry) && y == ry - cleared_below(c, ry));
            } else {
                assert(y == (h - 1) - cleared_below(c, h - 1));
                assert(0 <= h - 1 < h && !seq_has_row(c, h - 1) && y == (h - 1) - cleared_below(
                    c,
                    h - 1,
                ));
            }
        }
    }
}

/// How a field after a line clear relates to the field before it: every
/// kept row drops by the number of cleared rows below it, relative order
/// preserved, and the freed top rows are empty.
pub open spec fn cleared_rel(m0: Matrix, c: Seq<usize>, m1: Matrix) -> bool {
    &&& m1.same_dims(m0)
    &&& m1.wf()
    &&& forall|y: int, x: int|
        0 <= y < m0.height && !seq_has_row(c, y) && 0 <= x < m0.width ==> m1.cell(
            x,
            y - cleared_below(c, y),
        ) == m0.cell(x, y)
    &&& forall|y: int| m0.height - c.len() <= y < m0.height ==> m1.row_empty(y)
}

impl Matrix {
    /// Whether every cell of a row is occupied, as an executable query.
    fn row_is_full(&self, y: usize) -> (r: bool)
        requires
            self.wf(),
            y < self.height,
        ensures
            r == self.row_full(y as int),
    {
        let mut x: usize = 0;
        while x < self.width
            invariant
                self.wf(),
                y < self.height,
                x <= self.width,
                forall|i: int| 0 <= i < x ==> self.occupied(i, y as int),
            decreases self.width - x,
        {
            if self.get(Coordinate { x, y }).is_none() {
                proof {
                    assert(!self.occupied(x as int, y as int));
                }
                return false;
            }
            x += 1;
        }
        true
    }

    /// The indices of the rows whose every cell is occupied, in ascending
    /// order, each exactly once.
    pub fn full_lines(&self) -> (r: Vec<usize>)
        requires
            self.wf(),
        ensures
            forall|i: int| 0 <= i < r@.len() ==> (#[trigger] r@[i]) < self.height,
            forall|i: int| 0 <= i < r@.len() ==> self.row_full(#[trigger] r@[i] as int),
            forall|y: int| 0 <= y < self.height && self.row_full(y) ==> seq_has_row(r@, y),
            strictly_ascending(r@),
    {
        let mut r: Vec<usize> = Vec::new();
        let mut y: usize = 0;
        while y < self.height
            invariant
                self.wf(),
                y <= self.height,
                forall|i: int| 0 <= i < r@.len() ==> (#[trigger] r@[i]) < y,
                forall|i: int| 0 <= i < r@.len() ==> self.row_full(#[trigger] r@[i] as int),
                forall|j: int| 0 <= j < y && self.row_full(j) ==> seq_has_row(r@, j),
                strictly_ascending(r@),
            decreases self.height - y,
        {
            if self.row_is_full(y) {
                let ghost r0 = r@;
                r.push(y);
                proof {
                    assert(r@ == r0.push(y));
                    assert forall|j: int| 0 <= j < y + 1 && self.row_full(j) implies seq_has_row(
                        r@,
                        j,
                    ) by {
                        if j < y {
                            assert(seq_has_row(r0, j));
                            let i = choose|i: int| 0 <= i < r0.len() && r0[i] == j;
                            assert(r@[i] == j);
                        } else {
                            assert(r@[r0.len() as int] == y);
                        }
                    }
                    assert forall|i: int, j: int| 0 <= i < j < r@.len() implies r@[i] < r@[j] by {
                        if j < r0.len() {
                            assert(r@[i] == r0[i] && r@[j] == r0[j]);
                        } else {
                            assert(r@[j] == y && r@[i] == r0[i] && r0[i] < y);
                        }
                    }
                }
            }
            y += 1;
        }
        r
    }

    /// Remove the given rows, in ascending order of index; rows above each
    /// removed row shift down by one, keeping their relative order, and the
    /// freed rows at the top are left empty. Up to four rows can clear at
    /// once, the most one placement can complete.
    pub fn clear_lines(&mut self, indices: &[usize])
        requires
            old(self).wf(),
            strictly_ascending(indices@),
            forall|i: int| 0 <= i < indices@.len() ==> (#[trigger] indices@[i]) < old(self).height,
        ensures
            final(self).wf(),
            final(self).same_dims(*old(self)),
            cleared_rel(*old(self), indices@, *final(self)),
    {
        let total: usize = self.width * self.height;
        let ghost c = indices@;
        let ghost w = self.width as int;
        let mut fresh: Vec<Option<TetriminoColor>> = Vec::new();
        let mut y: usize = 0;
        while y < self.height
            invariant
                self.wf(),
                *self == *old(self),
                c == indices@,
                strictly_ascending(c),
                forall|i: int| 0 <= i < c.len() ==> (#[trigger] c[i]) < self.height,
                w == self.width as int,
                y <= self.height,
                0 <= cleared_below(c, y as int) <= y,
                fresh@.len() == w * (y - cleared_below(c, y as int)),
                forall|ry: int|
                    0 <= ry < y && !seq_has_row(c, ry) ==> 0 <= (ry - cleared_below(c, ry)) * w && (
                #[trigger] ((ry - cleared_below(c, ry)) * w)) + w <= fresh@.len(),
                forall|ry: int, x: int|
                    0 <= ry < y && !seq_has_row(c, ry) && 0 <= x < w ==> fresh@[(ry
                        - cleared_below(c, ry)) * w + x] == self.cell(x, ry),
            decreases self.height - y,
        {
            let ghost cb_y = cleared_below(c, y as int);
            proof {
                lemma_cb_step(c, y as int);
            }
            if !contains_row(indices, y) {
                let base = fresh.len();
                proof {
                    assert((y - cb_y) * w == w * (y - cb_y)) by (nonlinear_arith);
                }
                let mut x: usize = 0;
                while x < self.width
                    invariant
                        self.wf(),
                        *self == *old(self),
                        c == indices@,
                        w == self.width as int,
                        y < self.height,
                        x <= self.width,
                        fresh@.len() == base + x,
                        base == (y - cleared_below(c, y as int)) * w,
                        forall|i: int| 0 <= i < x ==> fresh@[base + i] == self.cell(i, y as int),
                        forall|ry: int|
                            0 <= ry < y && !seq_has_row(c, ry) ==> 0 <= (ry - cleared_below(c, ry))
                                * w && (#[trigger] ((ry - cleared_below(c, ry)) * w)) + w <= base,
                        forall|ry: int, xi: int|
                            0 <= ry < y && !seq_has_row(c, ry) && 0 <= xi < w ==> fresh@[(ry
                                - cleared_below(c, ry)) * w + xi] == self.cell(xi, ry),
                    decreases self.width - x,
                {
                    fresh.push(self.get(Coordinate { x, y }));
                    x += 1;
                }
                proof {
                    assert(cleared_below(c, y as int + 1) == cb_y);
                    assert(w * ((y + 1) - cb_y) == w * (y - cb_y) + w) by (nonlinear_arith);
                    lemma_cb_le(c, y as int + 1, 0);
                    lemma_cb_le_len(c, y as int + 1);
                }
            } else {
                proof {
                    assert(seq_has_row(c, y as int));
                    assert(cleared_below(c, y as int + 1) == cb_y + 1);
                    assert(w * ((y + 1) - (cb_y + 1)) == w * (y - cb_y)) by (nonlinear_arith);
                    lemma_cb_le(c, y as int + 1, 0);
                }
            }
            y += 1;
        }
        proof {
            lemma_cb_all(c, self.height as int);
            lemma_cb_le(c, self.height as int, 0);
            assert(c.len() <= self.height);
            assert(fresh@.len() == w * (self.height - c.len()));
            assert(0 <= w * (self.height - c.len()) <= w * self.height) by (nonlinear_arith)
                requires
                    0 <= c.len() <= self.height,
                    w >= 0,
            ;
        }
        let mut i: usize = fresh.len();
        while i < total
            invariant
                self.wf(),
                *self == *old(self),
                c == indices@,
                w == self.width as int,
                total == self.width * self.height,
                i == fresh@.len(),
                c.len() <= self.height,
                0 <= w * (self.height - c.len()) <= i <= total,
                forall|j: int| w * (self.height - c.len()) <= j < i ==> fresh@[j] is None,
                forall|ry: int|
                    0 <= ry < self.height && !seq_has_row(c, ry) ==> 0 <= (ry - cleared_below(
                        c,
                        ry,
                    )) * w && (#[trigger] ((ry - cleared_below(c, ry)) * w)) + w <= w
                        * (self.height - c.len()),
                forall|ry: int, x: int|
                    0 <= ry < self.height && !seq_has_row(c, ry) && 0 <= x < w ==> fresh@[(ry
                        - cleared_below(c, ry)) * w + x] == self.cell(x, ry),
            decreases total - i,
        {
            let ghost f0 = fresh@;
            fresh.push(None);
            proof {
                assert forall|j: int| w * (self.height - c.len()) <= j < i + 1 implies fresh@[j]
                    is None by {
                    if j < i {
                        assert(fresh@[j] == f0[j]);
                    } else {
                        assert(fresh@[i as int] is None);
                    }
                }
            }
            i += 1;
        }
        self.matrix = fresh;
        proof {
            assert(self.wf()) by {
                assert(self.matrix@.len() == self.width * self.height);
            }
            assert forall|ry: int, x: int|
                0 <= ry < old(self).height && !seq_has_row(c, ry) && 0 <= x < old(
                    self,
                ).width implies self.cell(x, ry - cleared_below(c, ry)) == old(self).cell(
                x,
                ry,
            ) by {
                assert(self.matrix@[(ry - cleared_below(c, ry)) * w + x] == old(self).cell(x, ry));
            }
            assert forall|yy: int|
                old(self).height - c.len() <= yy < old(self).height implies self.row_empty(
                yy,
            ) by {
                assert forall|x: int| 0 <= x < self.width implies !self.occupied(x, yy) by {
                    lemma_cb_le_len(c, yy);
                    assert(w * (self.height - c.len()) <= yy * w + x < w
                        * self.height) by (nonlinear_arith)
                        requires
                            0 <= x < w,
                            self.height - c.len() <= yy < self.height,
                            c.len() >= 0,
                            w >= 1,
                    ;
                    assert(self.matrix@[yy * w + x] is None);
                    assert(self.cell(x, yy) is None);
                }
            }
        }
    }
}

/// Whether a row index occurs in a slice of row indices.
fn contains_row(indices: &[usize], y: usize) -> (r: bool)
    ensures
        r == seq_has_row(indices@, y as int),
{
    let mut i: usize = 0;
    let n = indices.len();
    while i < n
        invariant
            n == indices@.len(),
            i <= n,
            forall|j: int| 0 <= j < i ==> indices@[j] != y,
        decreases n - i,
    {
        if indices[i] == y {
            return true;
        }
        i += 1;
    }
    false
}


/// Clearing exactly the full rows of a field leaves a field with no full
/// row: a cleared row's contents never reappear among the full rows of
/// the result, however many rows were cleared at once.
pub proof fn lemma_clear_full_lines_leaves_none(m0: Matrix, c: Seq<usize>, m1: Matrix)
    requires
        m0.wf(),
        strictly_ascending(c),
        forall|i: int| 0 <= i < c.len() ==> (#[trigger] c[i]) < m0.height,
        forall|y: int| 0 <= y < m0.height ==> (m0.row_full(y) <==> seq_has_row(c, y)),
        cleared_rel(m0, c, m1),
    ensures
        forall|y: int| 0 <= y < m1.height ==> !m1.row_full(y),
{
    lemma_cb_all(c, m0.height as int);
    assert forall|y: int| 0 <= y < m1.height implies !m1.row_full(y) by {
        if y >= m0.height - c.len() {
            assert(m1.row_empty(y));
            assert(!m1.occupied(0, y));
        } else {
            lemma_shift_onto(c, m0.height as int, y);
            let ry = choose|ry: int|
                0 <= ry < m0.height && !seq_has_row(c, ry) && y == ry - cleared_below(c, ry);
            assert(!m0.row_full(ry));
            assert(exists|x: int| 0 <= x < m0.width && !m0.occupied(x, ry));
            let x = choose|x: int| 0 <= x < m0.width && !m0.occupied(x, ry);
            assert(m1.cell(x, y) == m0.cell(x, ry));
            assert(!m1.occupied(x, y));
        }
    }
}

/// A piece with a cell outside the field, or over an occupied cell, is
/// never placeable.
pub proof fn lemma_unplaceable(m: Matrix, p: Piece, i: int)
    requires
        0 <= i < 4,
        !m.cell_free(abs_cells_spec(p)[i]),
    ensures
        !m.placeable_spec(p),
{
}

/// Clipping tolerates rows above the field: a piece whose cells are all
/// horizontally in range and at or above the field's top never clips.
pub proof fn lemma_clipping_tolerates_above(m: Matrix, p: Piece)
    requires
        forall|i: int|
            0 <= i < 4 ==> 0 <= (#[trigger] abs_cells_spec(p)[i]).0 < m.width && m.height
                <= abs_cells_spec(p)[i].1,
    ensures
        !m.clipping_spec(p),
{
}

/// Clipping rejects any cell beyond the side walls.
pub proof fn lemma_clipping_rejects_sides(m: Matrix, p: Piece, i: int)
    requires
        0 <= i < 4,
        abs_cells_spec(p)[i].0 < 0 || abs_cells_spec(p)[i].0 >= m.width,
    ensures
        m.clipping_spec(p),
{
    assert(m.cell_blocked(abs_cells_spec(p)[i]));
}

impl Matrix {
    /// Every cell of the field paired with its position, left-to-right,
    /// bottom-to-top: a finite, restartable render sequence of length
    /// width times height.
    pub fn cells(&self) -> (r: Vec<(Coordinate, Option<TetriminoColor>)>)
        requires
            self.wf(),
        ensures
            r@.len() == self.width * self.height,
            forall|x: int, y: int|
                self.in_field(x, y) ==> r@[y * self.width + x] == (
                    Coordinate { x: x as usize, y: y as usize },
                    self.cell(x, y),
                ),
    {
        let total = self.matrix.len();
        let mut r: Vec<(Coordinate, Option<TetriminoColor>)> = Vec::new();
        let mut pos = Coordinate { x: 0, y: 0 };
        let mut i: usize = 0;
        while i < total
            invariant
                self.wf(),
                total == self.width * self.height,
                i <= total,
                r@.len() == i,
                i == pos.y * self.width + pos.x,
                pos.x < self.width,
                forall|x: int, y: int|
                    0 <= x < self.width && 0 <= y && y * self.width + x < i ==> r@[y * self.width
                        + x] == (Coordinate { x: x as usize, y: y as usize }, self.cell(x, y)),
            decreases total - i,
        {
            let cell = self.matrix[i];
            let here = pos;
            r.push((here, cell));
            proof {
                assert(pos.y <= i) by (nonlinear_arith)
                    requires
                        i == pos.y * self.width + pos.x,
                        self.width >= 1,
                        pos.x >= 0,
                        pos.y >= 0,
                ;
            }
            pos.grid_inc(self.width);
            proof {
                if here.x + 1 == self.width {
                    assert((here.y + 1) * self.width == here.y * self.width
                        + self.width) by (nonlinear_arith);
                }
                assert(i + 1 == pos.y * self.width + pos.x);
                assert forall|x: int, y: int|
                    0 <= x < self.width && 0 <= y && y * self.width + x < i + 1 implies r@[y
                    * self.width + x] == (
                    Coordinate { x: x as usize, y: y as usize },
                    self.cell(x, y),
                ) by {
                    if y * self.width + x == i {
                        lemma_idx_injective(self.width as int, x, y, here.x as int, here.y as int);
                        assert(r@[i as int] == (here, cell));
                    }
                }
            }
            i += 1;
        }
        proof {
            assert forall|x: int, y: int| self.in_field(x, y) implies r@[y * self.width + x] == (
                Coordinate { x: x as usize, y: y as usize },
                self.cell(x, y),
            ) by {
                lemma_idx_bounds(self.width as int, self.height as int, x, y);
                assert(self.height * self.width == self.width * self.height) by (nonlinear_arith);
            }
        }
        r
    }
}

} // verus!

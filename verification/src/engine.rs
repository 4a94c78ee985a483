use vstd::prelude::*;

use crate::color::TetriminoColor;
use crate::matrix::{cleared_rel, seq_has_row, strictly_ascending, Matrix};
use crate::move_kind::{move_offset_spec, MoveKind};
use crate::piece::{abs_cells_spec, lemma_abs_cells, lemma_local_cells_bounds, local_cells_spec,
    Piece};
use crate::piece_kind::{all_kinds_spec, color_spec, north_height_spec, north_width_spec,
    PieceKind};
use crate::piece_rotation::Rotation;
use crate::rng::{fresh_rng, random_kind_index, shuffle_kinds};
use crate::{Coordinate, Offset};

verus! {

/// The game engine: the playing field, the falling piece, the preview
/// fields, the upcoming-piece queue, the hold slot, and the score.
pub struct Engine {
    pub matrix: Matrix,
    pub up_next_matrix: Matrix,
    pub hold_matrix: Matrix,
    pub queue_matrix: Matrix,
    pub next: Vec<PieceKind>,
    pub hold: Option<PieceKind>,
    pub hold_locked: bool,
    pub rng: rand::rngs::ThreadRng,
    pub cursor: Option<Piece>,
    pub level: u8,
    pub lines_reached: u32,
    pub score: u32,
}

/// The anchor range every engine operation keeps the cursor in: wide
/// enough for every reachable position, narrow enough that translating by
/// one cell or adding a bounding-box cell can never overflow.
pub open spec fn cursor_pos_ok(p: Piece) -> bool {
    &&& -4 <= p.position.x <= 12
    &&& -4 <= p.position.y <= 19
}

/// The fixed spawn column of a kind, chosen by the width of its
/// north-facing shape: the 2-wide O sits at 4, everything else at 3.
pub open spec fn spawn_x_spec(k: PieceKind) -> int {
    if north_width_spec(k) == 2 {
        4
    } else {
        3
    }
}

/// The fixed spawn row of a kind, chosen by the height of its north-facing
/// shape: the 1-high I spawns one row lower than the rest.
pub open spec fn spawn_y_spec(k: PieceKind) -> int {
    if north_height_spec(k) == 1 {
        18
    } else {
        19
    }
}

/// A freshly spawned piece: north-facing at the kind's spawn position,
/// partly or fully above the visible rows.
pub open spec fn spawn_piece_spec(k: PieceKind) -> Piece {
    Piece {
        kind: k,
        position: Offset { x: spawn_x_spec(k) as isize, y: spawn_y_spec(k) as isize },
        rotation: Rotation::N,
    }
}

/// A piece as it is drawn in a preview field: north-facing in the corner,
/// lifted by a whole number of preview rows.
pub open spec fn preview_piece_spec(k: PieceKind, dy: isize) -> Piece {
    Piece { kind: k, position: Offset { x: 0, y: dy }, rotation: Rotation::N }
}

/// What a preview field shows at one cell: the kind's color on the cells
/// of the preview piece, nothing elsewhere.
pub open spec fn preview_cell_spec(k: PieceKind, dy: isize, x: int, y: int) -> Option<
    TetriminoColor,
> {
    if abs_cells_spec(preview_piece_spec(k, dy)).contains((x, y)) {
        Some(color_spec(k))
    } else {
        None
    }
}

/// The preview fields show the queue: the up-next field shows the head,
/// and the queue field shows the remaining six, stacked top-to-bottom in
/// four-row blocks.
pub open spec fn previews_rebuilt(e1: Engine) -> bool {
    &&& forall|x: int, y: int|
        e1.up_next_matrix.in_field(x, y) ==> e1.up_next_matrix.cell(x, y) == preview_cell_spec(
            e1.next@[0],
            0,
            x,
            y,
        )
    &&& forall|i: int, x: int, y: int|
        1 <= i < 7 && 0 <= x < 4 && (6 - i) * 4 <= y < (6 - i) * 4 + 4 ==> e1.queue_matrix.cell(
            x,
            y,
        ) == preview_cell_spec(e1.next@[i], (24 - 4 * i) as isize, x, y)
}

/// How spawning a new cursor changes the engine: the field, the score and
/// the hold state are untouched; the cursor becomes the spawn piece of the
/// forced kind, or of the queue's head, in which case the queue shifts,
/// gains one kind at its tail, and the previews are rebuilt from it.
pub open spec fn spawned_rel(e0: Engine, force: Option<PieceKind>, e1: Engine) -> bool {
    &&& e1.matrix == e0.matrix
    &&& e1.hold_matrix == e0.hold_matrix
    &&& e1.hold == e0.hold
    &&& e1.hold_locked == e0.hold_locked
    &&& e1.level == e0.level
    &&& e1.lines_reached == e0.lines_reached
    &&& e1.score == e0.score
    &&& match force {
        Some(k) => {
            &&& e1.cursor == Some(spawn_piece_spec(k))
            &&& e1.next == e0.next
            &&& e1.up_next_matrix == e0.up_next_matrix
            &&& e1.queue_matrix == e0.queue_matrix
        },
        None => {
            &&& e1.cursor == Some(spawn_piece_spec(e0.next@[0]))
            &&& e1.next@.len() == 7
            &&& e1.next@.subrange(0, 6) == e0.next@.subrange(1, 7)
            &&& previews_rebuilt(e1)
        },
    }
}

/// A piece that does not clip sits inside the side walls and above the
/// floor, which bounds its anchor.
pub proof fn lemma_nonclipping_pos_bounds(m: Matrix, p: Piece)
    requires
        m.wf(),
        m.width <= 10,
        !m.clipping_spec(p),
    ensures
        -3 <= p.position.x <= 9,
        -3 <= p.position.y,
{
    lemma_local_cells_bounds(p.kind, p.rotation);
    lemma_abs_cells(p, 0);
    assert(!m.cell_blocked(abs_cells_spec(p)[0]));
}

impl Engine {
    /// The engine's structural invariant: the standard field and preview
    /// dimensions, a queue of seven kinds, a level of at least one, a
    /// lines counter still below the per-level threshold, and a cursor
    /// anchor in range.
    pub open spec fn wf(self) -> bool {
        &&& self.matrix.wf()
        &&& self.matrix.width == 10
        &&& self.matrix.height == 20
        &&& self.up_next_matrix.wf()
        &&& self.up_next_matrix.width == 4
        &&& self.up_next_matrix.height == 4
        &&& self.hold_matrix.wf()
        &&& self.hold_matrix.width == 4
        &&& self.hold_matrix.height == 4
        &&& self.queue_matrix.wf()
        &&& self.queue_matrix.width == 4
        &&& self.queue_matrix.height == 24
        &&& self.next@.len() == 7
        &&& 1 <= self.level
        &&& self.lines_reached <= 9
        &&& match self.cursor {
            Some(p) => cursor_pos_ok(p),
            None => true,
        }
    }

    /// Everything but the cursor is unchanged.
    pub open spec fn same_but_cursor(self, e1: Engine) -> bool {
        &&& e1.matrix == self.matrix
        &&& e1.up_next_matrix == self.up_next_matrix
        &&& e1.hold_matrix == self.hold_matrix
        &&& e1.queue_matrix == self.queue_matrix
        &&& e1.next == self.next
        &&& e1.hold == self.hold
        &&& e1.hold_locked == self.hold_locked
        &&& e1.level == self.level
        &&& e1.lines_reached == self.lines_reached
        &&& e1.score == self.score
    }

    /// A fresh engine: blank fields, an empty hold, level one, no score,
    /// and a queue holding each of the seven kinds once, in chance order.
    pub fn new() -> (r: Engine)
        ensures
            r.wf(),
            forall|x: int, y: int| r.matrix.in_field(x, y) ==> !r.matrix.occupied(x, y),
            forall|x: int, y: int|
                r.up_next_matrix.in_field(x, y) ==> !r.up_next_matrix.occupied(x, y),
            forall|x: int, y: int| r.hold_matrix.in_field(x, y) ==> !r.hold_matrix.occupied(x, y),
            forall|x: int, y: int|
                r.queue_matrix.in_field(x, y) ==> !r.queue_matrix.occupied(x, y),
            r.cursor is None,
            r.hold is None,
            !r.hold_locked,
            r.level == 1,
            r.lines_reached == 0,
            r.score == 0,
            r.next@.to_multiset() == all_kinds_spec().to_multiset(),
    {
        let mut rng = fresh_rng();
        let mut up_next = PieceKind::all_kinds();
        shuffle_kinds(&mut rng, &mut up_next);
        Engine {
            matrix: Matrix::blank(10, 20),
            up_next_matrix: Matrix::blank(4, 4),
            hold_matrix: Matrix::blank(4, 4),
            queue_matrix: Matrix::blank(4, 24),
            next: up_next,
            hold: None,
            hold_locked: false,
            rng,
            cursor: None,
            level: 1,
            lines_reached: 0,
            score: 0,
        }
    }

    /// Rebuild the up-next and queue preview fields from the queue.
    fn rebuild_previews(&mut self)
        requires
            old(self).wf(),
        ensures
            final(self).wf(),
            final(self).matrix == old(self).matrix,
            final(self).hold_matrix == old(self).hold_matrix,
            final(self).next == old(self).next,
            final(self).hold == old(self).hold,
            final(self).hold_locked == old(self).hold_locked,
            final(self).cursor == old(self).cursor,
            final(self).rng == old(self).rng,
            final(self).level == old(self).level,
            final(self).lines_reached == old(self).lines_reached,
            final(self).score == old(self).score,
            previews_rebuilt(*final(self)),
    {
        self.up_next_matrix.clear();
        self.queue_matrix.clear();
        let head = self.next[0];
        let head_piece = Piece { kind: head, position: Offset { x: 0, y: 0 }, rotation:
            Rotation::N };
        proof {
            lemma_local_cells_bounds(head, Rotation::N);
            assert forall|j: int| 0 <= j < 4 implies self.up_next_matrix.cell_free(
                #[trigger] abs_cells_spec(head_piece)[j],
            ) by {
                lemma_abs_cells(head_piece, j);
                let c = abs_cells_spec(head_piece)[j];
                assert(c.0 == local_cells_spec(head, Rotation::N)[j].0);
                assert(c.1 == local_cells_spec(head, Rotation::N)[j].1);
                assert(0 <= c.0 < 4 && 0 <= c.1 < 4);
                assert(self.up_next_matrix.in_field(c.0, c.1));
                assert(!self.up_next_matrix.occupied(c.0, c.1));
            }
        }
        let ghost u0 = self.up_next_matrix;
        self.up_next_matrix.place_piece(head_piece);
        proof {
            assert(head_piece == preview_piece_spec(self.next@[0], 0));
            assert forall|x: int, y: int| self.up_next_matrix.in_field(x, y) implies self
                .up_next_matrix
                .cell(x, y) == preview_cell_spec(self.next@[0], 0, x, y) by {
                if !abs_cells_spec(head_piece).contains((x, y)) {
                    assert(self.up_next_matrix.cell(x, y) == u0.cell(x, y));
                    assert(!u0.occupied(x, y));
                }
            }
        }
        let mut i: usize = 1;
        while i < 7
            invariant
                self.wf(),
                self.matrix == old(self).matrix,
                forall|x: int, y: int|
                    self.up_next_matrix.in_field(x, y) ==> self.up_next_matrix.cell(x, y)
                        == preview_cell_spec(self.next@[0], 0, x, y),
                self.hold_matrix == old(self).hold_matrix,
                self.next == old(self).next,
                self.hold == old(self).hold,
                self.hold_locked == old(self).hold_locked,
                self.cursor == old(self).cursor,
                self.rng == old(self).rng,
                self.level == old(self).level,
                self.lines_reached == old(self).lines_reached,
                self.score == old(self).score,
                1 <= i <= 7,
                forall|j: int, x: int, y: int|
                    1 <= j < i && 0 <= x < 4 && (6 - j) * 4 <= y < (6 - j) * 4 + 4 ==> self
                        .queue_matrix
                        .cell(x, y) == preview_cell_spec(self.next@[j], (24 - 4 * j) as isize, x, y),
                forall|x: int, y: int|
                    0 <= x < 4 && 0 <= y < (7 - i) * 4 ==> !self.queue_matrix.occupied(x, y),
            decreases 7 - i,
        {
            let k = self.next[i];
            let dy: isize = (24 - 4 * (i as isize));
            let p = Piece { kind: k, position: Offset { x: 0, y: dy }, rotation: Rotation::N };
            proof {
                lemma_local_cells_bounds(k, Rotation::N);
                assert forall|j: int| 0 <= j < 4 implies self.queue_matrix.cell_free(
                    #[trigger] abs_cells_spec(p)[j],
                ) by {
                    lemma_abs_cells(p, j);
                    let c = abs_cells_spec(p)[j];
                    assert(c.0 == local_cells_spec(k, Rotation::N)[j].0);
                    assert(c.1 == local_cells_spec(k, Rotation::N)[j].1 + dy);
                    assert(0 <= c.0 < 4 && dy <= c.1 <= dy + 3);
                    assert(c.1 < (7 - i) * 4);
                    assert(self.queue_matrix.in_field(c.0, c.1));
                    assert(!self.queue_matrix.occupied(c.0, c.1));
                }
            }
            let ghost q0 = self.queue_matrix;
            self.queue_matrix.place_piece(p);
            proof {
                assert forall|j: int, x: int, y: int|
                    1 <= j < i + 1 && 0 <= x < 4 && (6 - j) * 4 <= y < (6 - j) * 4 + 4 implies self
                    .queue_matrix
                    .cell(x, y) == preview_cell_spec(
                    self.next@[j],
                    (24 - 4 * j) as isize,
                    x,
                    y,
                ) by {
                    if j < i {
                        assert forall|jj: int|
                            0 <= jj < 4 implies (#[trigger] abs_cells_spec(p)[jj]) != (x, y) by {
                            lemma_abs_cells(p, jj);
                        }
                        assert(!abs_cells_spec(p).contains((x, y)));
                        assert(self.queue_matrix.cell(x, y) == q0.cell(x, y));
                    } else {
                        assert(p == preview_piece_spec(self.next@[j], (24 - 4 * j) as isize));
                        if !abs_cells_spec(p).contains((x, y)) {
                            assert(self.queue_matrix.cell(x, y) == q0.cell(x, y));
                            assert(!q0.occupied(x, y));
                        }
                    }
                }
                assert forall|x: int, y: int|
                    0 <= x < 4 && 0 <= y < (7 - (i + 1)) * 4 implies !self.queue_matrix.occupied(
                    x,
                    y,
                ) by {
                    assert forall|jj: int|
                        0 <= jj < 4 implies (#[trigger] abs_cells_spec(p)[jj]) != (x, y) by {
                        lemma_abs_cells(p, jj);
                        assert(abs_cells_spec(p)[jj].1 >= dy);
                    }
                    assert(!abs_cells_spec(p).contains((x, y)));
                    assert(self.queue_matrix.in_field(x, y));
                    assert(self.queue_matrix.cell(x, y) == q0.cell(x, y));
                    assert(!q0.occupied(x, y));
                }
            }
            i += 1;
        }
    }

    /// Spawn a new cursor above the field: of the forced kind when one is
    /// given (restoring from hold), else of the kind at the head of the
    /// queue, refilling the queue's tail with a chance kind and rebuilding
    /// the preview fields.
    pub fn create_top_cursor(&mut self, force_kind: Option<PieceKind>)
        requires
            old(self).wf(),
        ensures
            final(self).wf(),
            spawned_rel(*old(self), force_kind, *final(self)),
    {
        let kind: PieceKind;
        match force_kind {
            Some(k) => {
                kind = k;
            },
            None => {
                kind = self.next.remove(0);
                let idx = random_kind_index(&mut self.rng);
                let fresh_kind = PieceKind::from_index(idx);
                self.next.push(fresh_kind);
                proof {
                    assert(self.next@.subrange(0, 6) =~= old(self).next@.subrange(1, 7));
                }
                self.rebuild_previews();
            },
        }
        let nw = kind.north_width();
        let x: isize = if nw == 2 {
            4
        } else {
            3
        };
        let nh = kind.north_height();
        let y: isize = if nh == 1 {
            18
        } else {
            19
        };
        self.cursor = Some(Piece { kind, position: Offset { x, y }, rotation: Rotation::N });
    }
}


/// A piece translated by a movement request.
pub open spec fn moved_spec(p: Piece, k: MoveKind) -> Piece {
    Piece {
        position: Offset {
            x: (p.position.x + move_offset_spec(k).0) as isize,
            y: (p.position.y + move_offset_spec(k).1) as isize,
        },
        ..p
    }
}

/// A piece one row further down.
pub open spec fn ticked_spec(p: Piece) -> Piece {
    Piece { position: Offset { x: p.position.x, y: (p.position.y - 1) as isize }, ..p }
}

/// Whether the cursor exists and can move one row down without clipping.
pub open spec fn can_tick_spec(m: Matrix, cursor: Option<Piece>) -> bool {
    cursor is Some && !m.clipping_spec(ticked_spec(cursor.unwrap()))
}

/// Whether the cursor exists and has hit bottom: one more row down would
/// clip.
pub open spec fn bottomed_spec(m: Matrix, cursor: Option<Piece>) -> bool {
    cursor is Some && m.clipping_spec(ticked_spec(cursor.unwrap()))
}

/// A piece moved to the given anchor row.
pub open spec fn at_y_spec(p: Piece, y: int) -> Piece {
    Piece { position: Offset { x: p.position.x, y: y as isize }, ..p }
}

/// How a hard drop relates the dropped piece to the starting piece: same
/// kind, facing and column; at or below the start; bottomed out; and every
/// row it fell through was free of clipping.
pub open spec fn hard_dropped_rel(m: Matrix, p: Piece, q: Piece) -> bool {
    &&& q.kind == p.kind
    &&& q.rotation == p.rotation
    &&& q.position.x == p.position.x
    &&& q.position.y <= p.position.y
    &&& m.clipping_spec(ticked_spec(q))
    &&& forall|y: int|
        q.position.y <= y < p.position.y ==> !m.clipping_spec(#[trigger] at_y_spec(p, y))
}

impl Engine {
    /// Translate the cursor one cell left or right. Succeeds trivially
    /// with no cursor; fails, leaving the cursor unchanged, if the moved
    /// piece would clip; commits the move otherwise.
    pub fn move_cursor(&mut self, kind: MoveKind) -> (r: Result<(), ()>)
        requires
            old(self).wf(),
        ensures
            final(self).wf(),
            old(self).same_but_cursor(*final(self)),
            final(self).rng == old(self).rng,
            match old(self).cursor {
                None => r is Ok && final(self).cursor is None,
                Some(c) => {
                    if old(self).matrix.clipping_spec(moved_spec(c, kind)) {
                        r is Err && final(self).cursor == Some(c)
                    } else {
                        r is Ok && final(self).cursor == Some(moved_spec(c, kind))
                    }
                },
            },
    {
        let cursor = match self.cursor {
            Some(c) => c,
            None => {
                return Ok(());
            },
        };
        let moved = cursor.moved_by(kind.offset());
        if self.matrix.is_clipping(&moved) {
            return Err(());
        }
        proof {
            lemma_nonclipping_pos_bounds(self.matrix, moved);
        }
        self.cursor = Some(moved);
        Ok(())
    }

    /// Set the cursor's facing outright, without any legality check; the
    /// checked variant is rotate_and_adjust_cursor. Does nothing with no
    /// cursor.
    pub fn rotate_cursor(&mut self, kind: Rotation)
        requires
            old(self).wf(),
        ensures
            final(self).wf(),
            old(self).same_but_cursor(*final(self)),
            final(self).rng == old(self).rng,
            match old(self).cursor {
                None => final(self).cursor is None,
                Some(c) => final(self).cursor == Some(Piece { rotation: kind, ..c }),
            },
    {
        let cursor = match self.cursor {
            Some(c) => c,
            None => {
                return ;
            },
        };
        self.cursor = Some(Piece { rotation: kind, ..cursor });
    }

    /// Set the cursor's facing if the rotated piece stays inside the side
    /// walls and off occupied cells; rows below or above the field are
    /// tolerated. There is no kick or offset search: a rotation that does
    /// not fit simply fails, leaving the cursor unchanged.
    pub fn rotate_and_adjust_cursor(&mut self, kind: Rotation) -> (r: Option<()>)
        requires
            old(self).wf(),
        ensures
            final(self).wf(),
            old(self).same_but_cursor(*final(self)),
            final(self).rng == old(self).rng,
            match old(self).cursor {
                None => r is None && final(self).cursor is None,
                Some(c) => {
                    if old(self).matrix.out_of_bounds_or_overlap_spec(
                        Piece { rotation: kind, ..c },
                    ) {
                        r is None && final(self).cursor == Some(c)
                    } else {
                        r is Some && final(self).cursor == Some(Piece { rotation: kind, ..c })
                    }
                },
            },
    {
        let cursor = match self.cursor {
            Some(c) => c,
            None => {
                return None;
            },
        };
        let rotated = Piece { rotation: kind, ..cursor };
        if self.matrix.has_piece_out_of_bounds_coords(&rotated) {
            return None;
        }
        self.cursor = Some(rotated);
        Some(())
    }

    /// The cursor's absolute cells, color and facing, for rendering; or
    /// nothing when there is no cursor or it has no valid cell positions.
    pub fn cursor_info(&self) -> (r: Option<(Vec<Coordinate>, TetriminoColor, Rotation)>)
        requires
            self.wf(),
        ensures
            match self.cursor {
                None => r is None,
                Some(c) => {
                    if self.matrix.piece_cells_ok(c) {
                        r matches Some(t) && t.1 == color_spec(c.kind) && t.2 == c.rotation
                            && t.0@.len() == 4 && forall|i: int|
                            0 <= i < 4 ==> ((#[trigger] t.0@[i]).x as int, t.0@[i].y as int)
                                == abs_cells_spec(c)[i]
                    } else {
                        r is None
                    }
                },
            },
    {
        let cursor = match self.cursor {
            Some(c) => c,
            None => {
                return None;
            },
        };
        let cells = match self.matrix.piece_cells(&cursor) {
            Some(cells) => cells,
            None => {
                return None;
            },
        };
        Some((cells, cursor.kind.color(), cursor.rotation))
    }

    /// The facing a rotate input would turn the cursor to, or nothing with
    /// no cursor.
    pub fn next_cursor_rotation(&self) -> (r: Option<Rotation>)
        ensures
            match self.cursor {
                None => r is None,
                Some(c) => r == Some(
                    crate::piece_rotation::next_rotation_spec(c.rotation),
                ),
            },
    {
        let cursor = match self.cursor {
            Some(c) => c,
            None => {
                return None;
            },
        };
        Some(cursor.rotation.next_rotation())
    }

    /// The cursor one row further down, if that would not clip; used both
    /// to ask whether the cursor has hit bottom and to perform a tick.
    pub fn ticked_down_cursor(&self) -> (r: Option<Piece>)
        requires
            self.wf(),
        ensures
            r == if can_tick_spec(self.matrix, self.cursor) {
                Some(ticked_spec(self.cursor.unwrap()))
            } else {
                None::<Piece>
            },
    {
        let cursor = match self.cursor {
            Some(c) => c,
            None => {
                return None;
            },
        };
        let down = cursor.moved_by(Offset { x: 0, y: -1 });
        if self.matrix.is_clipping(&down) {
            None
        } else {
            Some(down)
        }
    }

    /// Whether a cursor exists and can fall no further.
    pub fn cursor_has_hit_bottom(&self) -> (r: bool)
        requires
            self.wf(),
        ensures
            r == bottomed_spec(self.matrix, self.cursor),
    {
        self.cursor.is_some() && self.ticked_down_cursor().is_none()
    }

    /// Commit one downward tick. The cursor must exist and must not be
    /// bottomed out: ticking otherwise is a logic error of the caller.
    pub fn try_tick_down(&mut self)
        requires
            old(self).wf(),
            can_tick_spec(old(self).matrix, old(self).cursor),
        ensures
            final(self).wf(),
            old(self).same_but_cursor(*final(self)),
            final(self).rng == old(self).rng,
            final(self).cursor == Some(ticked_spec(old(self).cursor.unwrap())),
    {
        let down = self.ticked_down_cursor().unwrap();
        proof {
            lemma_nonclipping_pos_bounds(self.matrix, down);
        }
        self.cursor = Some(down);
    }

    /// Tick the cursor down until it is bottomed out. Moving only: the
    /// caller places the piece in a separate step. Does nothing with no
    /// cursor.
    pub fn hard_drop(&mut self)
        requires
            old(self).wf(),
        ensures
            final(self).wf(),
            old(self).same_but_cursor(*final(self)),
            final(self).rng == old(self).rng,
            old(self).cursor is None ==> final(self).cursor is None,
            old(self).cursor matches Some(c) ==> final(self).cursor matches Some(q)
                && hard_dropped_rel(old(self).matrix, c, q),
    {
        let start = match self.cursor {
            Some(c) => c,
            None => {
                return ;
            },
        };
        loop
            invariant_except_break
                self.wf(),
                old(self).same_but_cursor(*self),
                self.rng == old(self).rng,
                old(self).cursor == Some(start),
                self.cursor matches Some(p) && p.kind == start.kind && p.rotation
                    == start.rotation && p.position.x == start.position.x && p.position.y
                    <= start.position.y,
                forall|y: int|
                    self.cursor.unwrap().position.y <= y < start.position.y ==> !self
                        .matrix
                        .clipping_spec(#[trigger] at_y_spec(start, y)),
            ensures
                self.wf(),
                old(self).same_but_cursor(*self),
                self.rng == old(self).rng,
                self.cursor matches Some(q) && hard_dropped_rel(old(self).matrix, start, q),
            decreases self.cursor.unwrap().position.y + 4,
        {
            match self.ticked_down_cursor() {
                Some(down) => {
                    proof {
                        lemma_nonclipping_pos_bounds(self.matrix, down);
                        assert(down == at_y_spec(start, down.position.y as int));
                    }
                    self.cursor = Some(down);
                },
                None => {
                    break ;
                },
            }
        }
    }
}


/// What the hold preview shows after banking a piece: the banked kind in
/// the corner of the hold field, keeping the facing it was banked with.
pub open spec fn held_piece_spec(c: Piece) -> Piece {
    Piece { kind: c.kind, position: Offset { x: 0, y: 0 }, rotation: c.rotation }
}

/// How stamping a piece relates the field after to the field before:
/// the piece's cells take its color, everything else is kept.
pub open spec fn stamped_spec(m0: Matrix, p: Piece, m1: Matrix) -> bool {
    &&& m1.same_dims(m0)
    &&& m1.wf()
    &&& forall|x: int, y: int|
        m1.in_field(x, y) ==> m1.cell(x, y) == (if abs_cells_spec(p).contains((x, y)) {
            Some(color_spec(p.kind))
        } else {
            m0.cell(x, y)
        })
}

/// How placing the cursor changes the engine: the result reports whether
/// the cursor was placeable; if so the field is stamped and the hold lock
/// opens again, else nothing changes. The cursor itself stays: the caller
/// spawns its successor.
pub open spec fn placed_rel(e0: Engine, e1: Engine, r: bool) -> bool {
    &&& r == e0.matrix.placeable_spec(e0.cursor.unwrap())
    &&& if r {
        &&& stamped_spec(e0.matrix, e0.cursor.unwrap(), e1.matrix)
        &&& e1.up_next_matrix == e0.up_next_matrix
        &&& e1.hold_matrix == e0.hold_matrix
        &&& e1.queue_matrix == e0.queue_matrix
        &&& e1.next == e0.next
        &&& e1.hold == e0.hold
        &&& !e1.hold_locked
        &&& e1.rng == e0.rng
        &&& e1.cursor == e0.cursor
        &&& e1.level == e0.level
        &&& e1.lines_reached == e0.lines_reached
        &&& e1.score == e0.score
    } else {
        e1 == e0
    }
}

/// How a hold request changes the engine. With no cursor it reports
/// nothing done. While the hold lock is closed, or when the slot already
/// holds the cursor's kind, it is a no-op reporting Some(false). Otherwise
/// the cursor's kind is banked, shown in the hold preview with its current
/// facing, the lock closes until the next placement, and the previously
/// held kind - or the head of the queue - spawns as the new cursor.
pub open spec fn hold_rel(e0: Engine, e1: Engine, r: Option<bool>) -> bool {
    match e0.cursor {
        None => r is None && e1 == e0,
        Some(c) => {
            if e0.hold_locked || (e0.hold matches Some(h) && h == c.kind) {
                r == Some(false) && e1 == e0
            } else {
                &&& r == Some(true)
                &&& e1.hold == Some(c.kind)
                &&& e1.hold_locked
                &&& forall|x: int, y: int|
                    e1.hold_matrix.in_field(x, y) ==> e1.hold_matrix.cell(x, y) == (
                    if abs_cells_spec(held_piece_spec(c)).contains((x, y)) {
                        Some(color_spec(c.kind))
                    } else {
                        None
                    })
                &&& spawned_rel(
                    Engine {
                        hold: Some(c.kind),
                        hold_locked: true,
                        hold_matrix: e1.hold_matrix,
                        cursor: None,
                        ..e0
                    },
                    e0.hold,
                    e1,
                )
            }
        },
    }
}

/// The fixed-point scale of the gravity formula: one second in
/// microseconds.
pub open spec fn fixed_one() -> int {
    1_000_000
}

/// The n-th fixed-point power of a base given in millionths.
pub open spec fn pow_fixed(base: int, n: nat) -> int
    decreases n,
{
    if n == 0 {
        fixed_one()
    } else {
        pow_fixed(base, (n - 1) as nat) * base / fixed_one()
    }
}

/// The base of the gravity formula for a level, in millionths of a
/// second: 0.8 - (level + 1) * 0.007, floored at zero.
pub open spec fn gravity_base(level: int) -> int {
    if 7000 * (level + 1) >= 800_000 {
        0
    } else {
        800_000 - 7000 * (level + 1)
    }
}

/// The gravity interval of a level in microseconds:
/// (0.8 - (level + 1) * 0.007) ^ (level + 1) seconds, evaluated in
/// millionth fixed point, divided by 20 while soft-dropping.
pub open spec fn drop_time_micros_spec(level: int, is_soft_drop: bool) -> int {
    let t = pow_fixed(gravity_base(level), (level + 1) as nat);
    if is_soft_drop {
        t / 20
    } else {
        t
    }
}

/// A fixed-point power of a base of at most one stays between zero and
/// one.
proof fn lemma_pow_fixed_bounds(base: int, n: nat)
    requires
        0 <= base <= fixed_one(),
    ensures
        0 <= pow_fixed(base, n) <= fixed_one(),
    decreases n,
{
    if n > 0 {
        lemma_pow_fixed_bounds(base, (n - 1) as nat);
        let prev = pow_fixed(base, (n - 1) as nat);
        assert(0 <= prev * base <= prev * fixed_one()) by (nonlinear_arith)
            requires
                0 <= prev,
                0 <= base <= fixed_one(),
        ;
        vstd::arithmetic::div_mod::lemma_div_is_ordered(
            prev * base,
            prev * fixed_one(),
            fixed_one(),
        );
        assert(prev * fixed_one() / fixed_one() == prev) by (nonlinear_arith);
        vstd::arithmetic::div_mod::lemma_div_pos_is_pos(prev * base, fixed_one());
    }
}

/// How a line-clear pass changes the engine: the returned indices are
/// exactly the full rows of the field before, ascending; the field is
/// cleared of them; one point and one counted line accrue per cleared
/// row, the score saturating at its machine limit; and a level is gained,
/// saturating likewise, whenever the line counter reaches ten, the
/// counter then starting over. Everything else is kept.
pub open spec fn line_cleared_rel(e0: Engine, e1: Engine, lines: Seq<usize>) -> bool {
    &&& strictly_ascending(lines)
    &&& forall|i: int| 0 <= i < lines.len() ==> (#[trigger] lines[i]) < e0.matrix.height
    &&& forall|i: int| 0 <= i < lines.len() ==> e0.matrix.row_full(#[trigger] lines[i] as int)
    &&& forall|y: int|
        0 <= y < e0.matrix.height && e0.matrix.row_full(y) ==> seq_has_row(lines, y)
    &&& cleared_rel(e0.matrix, lines, e1.matrix)
    &&& e1.lines_reached == (if e0.lines_reached + lines.len() >= 10 {
        0int
    } else {
        e0.lines_reached + lines.len()
    })
    &&& e1.level as int == (if e0.lines_reached + lines.len() >= 10 {
        if e0.level == u8::MAX {
            u8::MAX as int
        } else {
            e0.level + 1
        }
    } else {
        e0.level as int
    })
    &&& e1.score as int == (if e0.score + lines.len() <= u32::MAX {
        e0.score + lines.len()
    } else {
        u32::MAX as int
    })
    &&& e1.up_next_matrix == e0.up_next_matrix
    &&& e1.hold_matrix == e0.hold_matrix
    &&& e1.queue_matrix == e0.queue_matrix
    &&& e1.next == e0.next
    &&& e1.hold == e0.hold
    &&& e1.hold_locked == e0.hold_locked
    &&& e1.rng == e0.rng
    &&& e1.cursor == e0.cursor
}

impl Engine {
    /// Stamp the cursor into the field at its current position. Reports
    /// false, changing nothing, when the cursor is not placeable: the
    /// game-over signal. On success the hold lock opens again; the spent
    /// cursor stays until the caller spawns its successor.
    pub fn place_cursor(&mut self) -> (r: bool)
        requires
            old(self).wf(),
            old(self).cursor is Some,
        ensures
            final(self).wf(),
            placed_rel(*old(self), *final(self), r),
    {
        let cursor = self.cursor.unwrap();
        if !self.matrix.is_placeable(&cursor) {
            return false;
        }
        self.matrix.place_piece(cursor);
        self.hold_locked = false;
        true
    }

    /// Like place_cursor, but an absent cursor is tolerated and counts as
    /// success: there is simply nothing to place.
    pub fn try_place_cursor(&mut self) -> (r: bool)
        requires
            old(self).wf(),
        ensures
            final(self).wf(),
            match old(self).cursor {
                None => r && *final(self) == *old(self),
                Some(_) => placed_rel(*old(self), *final(self), r),
            },
    {
        if self.cursor.is_none() {
            return true;
        }
        self.place_cursor()
    }

    /// Bank the cursor's kind in the hold slot, once per placement.
    pub fn try_hold(&mut self) -> (r: Option<bool>)
        requires
            old(self).wf(),
        ensures
            final(self).wf(),
            hold_rel(*old(self), *final(self), r),
    {
        let cursor = match self.cursor {
            Some(c) => c,
            None => {
                return None;
            },
        };
        if self.hold_locked {
            return Some(false);
        }
        match self.hold {
            Some(h) => {
                if h == cursor.kind {
                    return Some(false);
                }
            },
            None => {},
        }
        self.hold_matrix.clear();
        let old_hold = self.hold;
        self.hold = Some(cursor.kind);
        let display = Piece { kind: cursor.kind, position: Offset { x: 0, y: 0 }, rotation:
            cursor.rotation };
        proof {
            lemma_local_cells_bounds(display.kind, display.rotation);
            assert forall|j: int| 0 <= j < 4 implies self.hold_matrix.cell_free(
                #[trigger] abs_cells_spec(display)[j],
            ) by {
                lemma_abs_cells(display, j);
                let c = abs_cells_spec(display)[j];
                assert(c.0 == local_cells_spec(display.kind, display.rotation)[j].0);
                assert(c.1 == local_cells_spec(display.kind, display.rotation)[j].1);
                assert(0 <= c.0 < 4 && 0 <= c.1 < 4);
                assert(self.hold_matrix.in_field(c.0, c.1));
                assert(!self.hold_matrix.occupied(c.0, c.1));
            }
        }
        let ghost h0 = self.hold_matrix;
        self.hold_matrix.place_piece(display);
        proof {
            assert(display == held_piece_spec(cursor));
            assert forall|x: int, y: int| self.hold_matrix.in_field(x, y) implies self
                .hold_matrix
                .cell(x, y) == (if abs_cells_spec(held_piece_spec(cursor)).contains((x, y)) {
                Some(color_spec(cursor.kind))
            } else {
                None
            }) by {
                if !abs_cells_spec(display).contains((x, y)) {
                    assert(self.hold_matrix.cell(x, y) == h0.cell(x, y));
                    assert(!h0.occupied(x, y));
                }
            }
        }
        self.hold_locked = true;
        self.cursor = None;
        self.create_top_cursor(old_hold);
        Some(true)
    }

    /// Identify the full rows, clear them, and advance the score: one
    /// point and one counted line per cleared row, and one level for every
    /// ten lines reached, the counter then starting over. The cleared row
    /// indices are returned, ascending, so a caller can animate them.
    pub fn line_clear(&mut self) -> (r: Vec<usize>)
        requires
            old(self).wf(),
        ensures
            final(self).wf(),
            line_cleared_rel(*old(self), *final(self), r@),
    {
        let lines = self.matrix.full_lines();
        self.matrix.clear_lines(lines.as_slice());
        let n = lines.len() as u32;
        proof {
            assert(lines@.len() <= 20) by {
                if lines@.len() > 20 {
                    assert(lines@[20] < 20);
                    crate::matrix::lemma_ascending_at_least(lines@, 20);
                }
            }
        }
        self.lines_reached = self.lines_reached + n;
        self.score = if self.score <= u32::MAX - n {
            self.score + n
        } else {
            u32::MAX
        };
        if self.lines_reached >= 10 {
            self.level = if self.level == u8::MAX {
                u8::MAX
            } else {
                self.level + 1
            };
            self.lines_reached = 0;
        }
        lines
    }

    /// The gravity interval for the current level, in microseconds,
    /// divided by twenty while soft-dropping.
    pub fn drop_time(&self, is_soft_drop: bool) -> (r: u64)
        ensures
            r as int == drop_time_micros_spec(self.level as int, is_soft_drop),
    {
        let n: u64 = self.level as u64 + 1;
        let b7: u64 = 7000u64 * n;
        let base: u64 = if b7 >= 800_000 {
            0
        } else {
            800_000 - b7
        };
        let mut acc: u64 = 1_000_000;
        let mut i: u64 = 0;
        proof {
            lemma_pow_fixed_bounds(base as int, n as nat);
        }
        while i < n
            invariant
                n == self.level as int + 1,
                base as int == gravity_base(self.level as int),
                0 <= base <= 1_000_000,
                i <= n,
                acc as int == pow_fixed(base as int, i as nat),
                acc <= 1_000_000,
            decreases n - i,
        {
            proof {
                assert(acc * base <= 1_000_000 * 1_000_000) by (nonlinear_arith)
                    requires
                        0 <= acc <= 1_000_000,
                        0 <= base <= 1_000_000,
                ;
                lemma_pow_fixed_bounds(base as int, (i + 1) as nat);
            }
            acc = (acc * base) / 1_000_000;
            i += 1;
        }
        if is_soft_drop {
            acc / 20
        } else {
            acc
        }
    }

    /// Start over: no cursor, an empty field, level one, no score. The
    /// queue, the previews, the hold slot and the random stream carry
    /// over; the hold lock opens.
    pub fn reset(&mut self)
        requires
            old(self).wf(),
        ensures
            final(self).wf(),
            final(self).cursor is None,
            final(self).matrix.same_dims(old(self).matrix),
            forall|x: int, y: int|
                final(self).matrix.in_field(x, y) ==> !final(self).matrix.occupied(x, y),
            final(self).level == 1,
            final(self).score == 0,
            final(self).lines_reached == 0,
            !final(self).hold_locked,
            final(self).hold == old(self).hold,
            final(self).hold_matrix == old(self).hold_matrix,
            final(self).up_next_matrix == old(self).up_next_matrix,
            final(self).queue_matrix == old(self).queue_matrix,
            final(self).next == old(self).next,
            final(self).rng == old(self).rng,
    {
        self.cursor = None;
        self.matrix.clear();
        self.level = 1;
        self.score = 0;
        self.lines_reached = 0;
        self.hold_locked = false;
    }

    /// The main field's render sequence: every cell with its position,
    /// left-to-right, bottom-to-top.
    pub fn cells(&self) -> (r: Vec<(Coordinate, Option<TetriminoColor>)>)
        requires
            self.wf(),
        ensures
            r@.len() == self.matrix.width * self.matrix.height,
            forall|x: int, y: int|
                self.matrix.in_field(x, y) ==> r@[y * self.matrix.width + x] == (
                    Coordinate { x: x as usize, y: y as usize },
                    self.matrix.cell(x, y),
                ),
    {
        self.matrix.cells()
    }

    /// The up-next preview field's render sequence.
    pub fn cells_up_next(&self) -> (r: Vec<(Coordinate, Option<TetriminoColor>)>)
        requires
            self.wf(),
        ensures
            r@.len() == self.up_next_matrix.width * self.up_next_matrix.height,
            forall|x: int, y: int|
                self.up_next_matrix.in_field(x, y) ==> r@[y * self.up_next_matrix.width + x] == (
                    Coordinate { x: x as usize, y: y as usize },
                    self.up_next_matrix.cell(x, y),
                ),
    {
        self.up_next_matrix.cells()
    }

    /// The hold preview field's render sequence.
    pub fn cells_hold(&self) -> (r: Vec<(Coordinate, Option<TetriminoColor>)>)
        requires
            self.wf(),
        ensures
            r@.len() == self.hold_matrix.width * self.hold_matrix.height,
            forall|x: int, y: int|
                self.hold_matrix.in_field(x, y) ==> r@[y * self.hold_matrix.width + x] == (
                    Coordinate { x: x as usize, y: y as usize },
                    self.hold_matrix.cell(x, y),
                ),
    {
        self.hold_matrix.cells()
    }

    /// The queue preview field's render sequence.
    pub fn cells_remaining_next(&self) -> (r: Vec<(Coordinate, Option<TetriminoColor>)>)
        requires
            self.wf(),
        ensures
            r@.len() == self.queue_matrix.width * self.queue_matrix.height,
            forall|x: int, y: int|
                self.queue_matrix.in_field(x, y) ==> r@[y * self.queue_matrix.width + x] == (
                    Coordinate { x: x as usize, y: y as usize },
                    self.queue_matrix.cell(x, y),
                ),
    {
        self.queue_matrix.cells()
    }
}

} // verus!

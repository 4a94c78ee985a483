use tetris::matrix::Matrix;
use tetris::piece::Piece;
use tetris::piece_kind::PieceKind;
use tetris::piece_rotation::Rotation;
use tetris::Offset;

/// The absolute cells of a piece of the given kind and facing anchored at
/// (5, 5), through the field's coordinate conversion.
fn cells_at_5_5(kind: PieceKind, rotation: Rotation) -> Vec<(usize, usize)> {
    let m = Matrix::blank(10, 20);
    let p = Piece {
        kind,
        position: Offset::new(5, 5),
        rotation,
    };
    m.piece_cells(&p)
        .expect("cells in range")
        .iter()
        .map(|c| (c.x, c.y))
        .collect()
}

fn check_fixture(kind: PieceKind, fixtures: [(Rotation, [(usize, usize); 4]); 4]) {
    for (rotation, expected) in fixtures {
        assert_eq!(
            cells_at_5_5(kind, rotation),
            expected.to_vec(),
            "{:?} facing {:?}",
            kind,
            rotation
        );
    }
}

#[test]
fn fixture_cells_o() {
    check_fixture(
        PieceKind::O,
        [
            (Rotation::N, [(6, 6), (6, 7), (7, 6), (7, 7)]),
            (Rotation::E, [(6, 6), (6, 7), (7, 6), (7, 7)]),
            (Rotation::S, [(6, 6), (6, 7), (7, 6), (7, 7)]),
            (Rotation::W, [(6, 6), (6, 7), (7, 6), (7, 7)]),
        ],
    );
}

#[test]
fn fixture_cells_i() {
    check_fixture(
        PieceKind::I,
        [
            (Rotation::N, [(5, 7), (6, 7), (7, 7), (8, 7)]),
            (Rotation::E, [(7, 8), (7, 7), (7, 6), (7, 5)]),
            (Rotation::S, [(8, 6), (7, 6), (6, 6), (5, 6)]),
            (Rotation::W, [(6, 5), (6, 6), (6, 7), (6, 8)]),
        ],
    );
}

#[test]
fn fixture_cells_t() {
    check_fixture(
        PieceKind::T,
        [
            (Rotation::N, [(5, 6), (6, 6), (7, 6), (6, 7)]),
            (Rotation::E, [(6, 7), (6, 6), (6, 5), (7, 6)]),
            (Rotation::S, [(7, 6), (6, 6), (5, 6), (6, 5)]),
            (Rotation::W, [(6, 5), (6, 6), (6, 7), (5, 6)]),
        ],
    );
}

#[test]
fn fixture_cells_l() {
    check_fixture(
        PieceKind::L,
        [
            (Rotation::N, [(5, 6), (6, 6), (7, 6), (7, 7)]),
            (Rotation::E, [(6, 7), (6, 6), (6, 5), (7, 5)]),
            (Rotation::S, [(7, 6), (6, 6), (5, 6), (5, 5)]),
            (Rotation::W, [(6, 5), (6, 6), (6, 7), (5, 7)]),
        ],
    );
}

#[test]
fn fixture_cells_j() {
    check_fixture(
        PieceKind::J,
        [
            (Rotation::N, [(5, 7), (5, 6), (6, 6), (7, 6)]),
            (Rotation::E, [(7, 7), (6, 7), (6, 6), (6, 5)]),
            (Rotation::S, [(7, 5), (7, 6), (6, 6), (5, 6)]),
            (Rotation::W, [(5, 5), (6, 5), (6, 6), (6, 7)]),
        ],
    );
}

#[test]
fn fixture_cells_s() {
    check_fixture(
        PieceKind::S,
        [
            (Rotation::N, [(5, 6), (6, 6), (6, 7), (7, 7)]),
            (Rotation::E, [(6, 7), (6, 6), (7, 6), (7, 5)]),
            (Rotation::S, [(7, 6), (6, 6), (6, 5), (5, 5)]),
            (Rotation::W, [(6, 5), (6, 6), (5, 6), (5, 7)]),
        ],
    );
}

#[test]
fn fixture_cells_z() {
    check_fixture(
        PieceKind::Z,
        [
            (Rotation::N, [(5, 7), (6, 7), (6, 6), (7, 6)]),
            (Rotation::E, [(7, 7), (7, 6), (6, 6), (6, 5)]),
            (Rotation::S, [(7, 5), (6, 5), (6, 6), (5, 6)]),
            (Rotation::W, [(5, 5), (5, 6), (6, 6), (6, 7)]),
        ],
    );
}

#[test]
fn four_rotations_return_to_start() {
    for kind in PieceKind::all_kinds() {
        for rotation in [Rotation::N, Rotation::E, Rotation::S, Rotation::W] {
            let four = rotation
                .next_rotation()
                .next_rotation()
                .next_rotation()
                .next_rotation();
            assert_eq!(four, rotation);
            let mut cells_four = cells_at_5_5(kind, four);
            let mut cells_start = cells_at_5_5(kind, rotation);
            cells_four.sort();
            cells_start.sort();
            assert_eq!(cells_four, cells_start, "{:?}", kind);
        }
    }
}

#[test]
fn o_rotation_is_a_no_op() {
    let n = cells_at_5_5(PieceKind::O, Rotation::N);
    for rotation in [Rotation::E, Rotation::S, Rotation::W] {
        assert_eq!(cells_at_5_5(PieceKind::O, rotation), n);
    }
}

#[test]
fn moved_by_translates_without_mutating() {
    let p = Piece {
        kind: PieceKind::J,
        position: Offset::new(3, 7),
        rotation: Rotation::E,
    };
    let q = p.moved_by(Offset::new(-1, 2));
    assert_eq!(q.position, Offset::new(2, 9));
    assert_eq!(q.kind, PieceKind::J);
    assert_eq!(q.rotation, Rotation::E);
    assert_eq!(p.position, Offset::new(3, 7));
}

#[test]
fn shape_catalogue_basics() {
    assert_eq!(PieceKind::I.grid_size(), 4);
    assert_eq!(PieceKind::T.grid_size(), 3);
    assert_eq!(PieceKind::O.north_width(), 2);
    assert_eq!(PieceKind::I.north_width(), 4);
    assert_eq!(PieceKind::I.north_height(), 1);
    assert_eq!(PieceKind::Z.north_height(), 2);
    let all = PieceKind::all_kinds();
    assert_eq!(all.len(), 7);
    for kind in [
        PieceKind::O,
        PieceKind::I,
        PieceKind::T,
        PieceKind::L,
        PieceKind::J,
        PieceKind::S,
        PieceKind::Z,
    ] {
        assert_eq!(all.iter().filter(|k| **k == kind).count(), 1);
    }
}

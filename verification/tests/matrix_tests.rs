use tetris::color::TetriminoColor;
use tetris::geometry::GridIncrement;
use tetris::matrix::Matrix;
use tetris::piece::Piece;
use tetris::piece_kind::PieceKind;
use tetris::piece_rotation::Rotation;
use tetris::{Coordinate, Offset};

fn blank_field() -> Matrix {
    Matrix::blank(10, 20)
}

#[test]
fn cell_iter() {
    let mut matrix = Matrix::blank(10, 20);
    matrix.set(Coordinate::new(2, 0), Some(TetriminoColor::Blue));
    matrix.set(Coordinate::new(3, 1), Some(TetriminoColor::Green));

    let cells = matrix.cells();

    let first_five: Vec<_> = cells.iter().take(5).cloned().collect();
    assert_eq!(
        first_five,
        vec![
            (Coordinate::new(0, 0), None),
            (Coordinate::new(1, 0), None),
            (Coordinate::new(2, 0), Some(TetriminoColor::Blue)),
            (Coordinate::new(3, 0), None),
            (Coordinate::new(4, 0), None),
        ]
    );

    let other_item = cells.iter().skip(5).skip(8).next().cloned();
    assert_eq!(
        other_item,
        Some((Coordinate::new(3, 1), Some(TetriminoColor::Green)))
    );

    assert!(cells.iter().skip(14).all(|(_, contents)| contents.is_none()));
}

#[test]
fn grid_increment_steps_and_wraps() {
    let mut pos = Coordinate::new(0, 0);
    pos.grid_inc(10);
    assert_eq!(pos, Coordinate::new(1, 0));
    let wrapped = Coordinate::new(9, 3).grid_incd(10);
    assert_eq!(wrapped, Coordinate::new(0, 4));
}

#[test]
fn blank_field_is_empty() {
    let m = blank_field();
    for y in 0..20 {
        for x in 0..10 {
            assert_eq!(m.get(Coordinate::new(x, y)), None);
        }
    }
    assert!(m.full_lines().is_empty());
}

#[test]
fn lines_reports_rows_bottom_to_top() {
    let mut m = blank_field();
    m.set(Coordinate::new(4, 2), Some(TetriminoColor::Red));
    let rows = m.lines();
    assert_eq!(rows.len(), 20);
    assert_eq!(rows[2][4], Some(TetriminoColor::Red));
    assert_eq!(rows[2][5], None);
    assert_eq!(rows[0][4], None);
}

#[test]
fn place_piece_stamps_color() {
    let mut m = blank_field();
    let p = Piece {
        kind: PieceKind::T,
        position: Offset::new(0, 0),
        rotation: Rotation::N,
    };
    assert!(m.is_placeable(&p));
    m.place_piece(p);
    for (x, y) in [(0usize, 1usize), (1, 1), (2, 1), (1, 2)] {
        assert_eq!(
            m.get(Coordinate::new(x, y)),
            Some(TetriminoColor::Purple),
            "cell ({x},{y})"
        );
    }
    assert_eq!(m.get(Coordinate::new(1, 0)), None);
    assert_eq!(m.get(Coordinate::new(0, 2)), None);
}

#[test]
fn placeable_rejects_overlap_and_out_of_field() {
    let mut m = blank_field();
    m.set(Coordinate::new(1, 1), Some(TetriminoColor::Red));
    let over_occupied = Piece {
        kind: PieceKind::T,
        position: Offset::new(0, 0),
        rotation: Rotation::N,
    };
    assert!(!m.is_placeable(&over_occupied));
    assert!(m.is_clipping(&over_occupied));

    let above_field = Piece {
        kind: PieceKind::T,
        position: Offset::new(3, 19),
        rotation: Rotation::N,
    };
    assert!(!m.is_placeable(&above_field));

    let past_wall = Piece {
        kind: PieceKind::T,
        position: Offset::new(8, 5),
        rotation: Rotation::N,
    };
    assert!(!m.is_placeable(&past_wall));
    assert!(m.is_clipping(&past_wall));
}

#[test]
fn clipping_tolerates_rows_above_the_field() {
    let m = blank_field();
    let hovering = Piece {
        kind: PieceKind::T,
        position: Offset::new(3, 20),
        rotation: Rotation::N,
    };
    assert!(!m.is_clipping(&hovering));

    let below_floor = Piece {
        kind: PieceKind::T,
        position: Offset::new(3, -2),
        rotation: Rotation::N,
    };
    assert!(m.is_clipping(&below_floor));
}

#[test]
fn rotation_check_tolerates_negative_rows() {
    let m = blank_field();
    let below_floor = Piece {
        kind: PieceKind::T,
        position: Offset::new(3, -2),
        rotation: Rotation::N,
    };
    assert!(!m.has_piece_out_of_bounds_coords(&below_floor));

    let past_wall = Piece {
        kind: PieceKind::T,
        position: Offset::new(8, 5),
        rotation: Rotation::N,
    };
    assert!(m.has_piece_out_of_bounds_coords(&past_wall));
}

#[test]
fn full_lines_finds_completed_rows_ascending() {
    let mut m = blank_field();
    for x in 0..10 {
        m.set(Coordinate::new(x, 1), Some(TetriminoColor::Blue));
        m.set(Coordinate::new(x, 3), Some(TetriminoColor::Yellow));
    }
    m.set(Coordinate::new(0, 2), Some(TetriminoColor::Green));
    assert_eq!(m.full_lines(), vec![1, 3]);
}

#[test]
fn clear_lines_shifts_rows_down_by_cleared_count() {
    let mut m = blank_field();
    m.set(Coordinate::new(0, 0), Some(TetriminoColor::Red));
    for x in 0..10 {
        m.set(Coordinate::new(x, 1), Some(TetriminoColor::Blue));
        m.set(Coordinate::new(x, 3), Some(TetriminoColor::Yellow));
    }
    m.set(Coordinate::new(1, 2), Some(TetriminoColor::Green));
    m.set(Coordinate::new(2, 4), Some(TetriminoColor::Cyan));

    m.clear_lines(&[1, 3]);

    // Row 0 had no cleared row below: it stays.
    assert_eq!(m.get(Coordinate::new(0, 0)), Some(TetriminoColor::Red));
    // Old row 2 had one cleared row below: it drops to row 1.
    assert_eq!(m.get(Coordinate::new(1, 1)), Some(TetriminoColor::Green));
    // Old row 4 had two cleared rows below: it drops to row 2.
    assert_eq!(m.get(Coordinate::new(2, 2)), Some(TetriminoColor::Cyan));
    // The freed top rows are empty.
    for x in 0..10 {
        assert_eq!(m.get(Coordinate::new(x, 18)), None);
        assert_eq!(m.get(Coordinate::new(x, 19)), None);
    }
    // Clearing the full rows left no full row behind.
    assert!(m.full_lines().is_empty());
}

#[test]
fn clear_lines_takes_four_rows_at_once() {
    let mut m = blank_field();
    for y in 0..4 {
        for x in 0..10 {
            m.set(Coordinate::new(x, y), Some(TetriminoColor::Orange));
        }
    }
    m.set(Coordinate::new(5, 4), Some(TetriminoColor::Red));
    assert_eq!(m.full_lines(), vec![0, 1, 2, 3]);
    m.clear_lines(&[0, 1, 2, 3]);
    assert_eq!(m.get(Coordinate::new(5, 0)), Some(TetriminoColor::Red));
    for y in 1..20 {
        for x in 0..10 {
            assert_eq!(m.get(Coordinate::new(x, y)), None);
        }
    }
}

#[test]
fn cleared_full_rows_do_not_come_back() {
    let mut field = blank_field();
    for x in 0..6 {
        field.set(Coordinate::new(x, 0), Some(TetriminoColor::Green));
    }
    // Complete row 0 with a flat I piece: its shape table row sits two
    // cells up, so the anchor is below the floor.
    let i_piece = Piece {
        kind: PieceKind::I,
        position: Offset::new(6, -2),
        rotation: Rotation::N,
    };
    assert!(field.is_placeable(&i_piece));
    field.place_piece(i_piece);
    assert_eq!(field.full_lines(), vec![0]);
    field.clear_lines(&[0]);
    for x in 0..10 {
        assert_eq!(field.get(Coordinate::new(x, 0)), None);
    }
    assert!(field.full_lines().is_empty());
}

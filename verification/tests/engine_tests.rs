use tetris::color::TetriminoColor;
use tetris::engine::Engine;
use tetris::move_kind::MoveKind;
use tetris::piece_kind::PieceKind;
use tetris::piece_rotation::Rotation;
use tetris::{Coordinate, Offset};

fn occupied_cells(engine: &Engine) -> Vec<(usize, usize, TetriminoColor)> {
    let mut out = Vec::new();
    for y in 0..20 {
        for x in 0..10 {
            if let Some(color) = engine.matrix.get(Coordinate::new(x, y)) {
                out.push((x, y, color));
            }
        }
    }
    out
}

#[test]
fn new_engine_is_blank_with_a_full_bag() {
    let engine = Engine::new();
    assert!(occupied_cells(&engine).is_empty());
    assert!(engine.cursor.is_none());
    assert!(engine.hold.is_none());
    assert_eq!(engine.level, 1);
    assert_eq!(engine.score, 0);
    assert_eq!(engine.lines_reached, 0);
    assert_eq!(engine.next.len(), 7);
    for kind in PieceKind::all_kinds() {
        assert_eq!(engine.next.iter().filter(|k| **k == kind).count(), 1);
    }
    // The preview fields start blank too.
    assert!(engine.cells_up_next().iter().all(|(_, c)| c.is_none()));
    assert!(engine.cells_hold().iter().all(|(_, c)| c.is_none()));
    assert!(engine.cells_remaining_next().iter().all(|(_, c)| c.is_none()));
}

#[test]
fn spawn_positions_follow_shape_sizes() {
    let mut engine = Engine::new();
    engine.create_top_cursor(Some(PieceKind::O));
    assert_eq!(engine.cursor.unwrap().position, Offset::new(4, 19));
    engine.create_top_cursor(Some(PieceKind::I));
    assert_eq!(engine.cursor.unwrap().position, Offset::new(3, 18));
    engine.create_top_cursor(Some(PieceKind::T));
    let cursor = engine.cursor.unwrap();
    assert_eq!(cursor.position, Offset::new(3, 19));
    assert_eq!(cursor.rotation, Rotation::N);
    assert_eq!(cursor.kind, PieceKind::T);
}

#[test]
fn spawning_from_queue_refills_and_previews() {
    let mut engine = Engine::new();
    let head = engine.next[0];
    let second = engine.next[1];
    engine.create_top_cursor(None);
    assert_eq!(engine.cursor.unwrap().kind, head);
    assert_eq!(engine.next.len(), 7);
    assert_eq!(engine.next[0], second);
    // The up-next preview shows the new head as four cells of its color.
    let shown: Vec<_> = engine
        .cells_up_next()
        .into_iter()
        .filter_map(|(_, c)| c)
        .collect();
    assert_eq!(shown.len(), 4);
    assert!(shown.iter().all(|c| *c == second.color()));
    // The queue preview shows the six kinds behind the head.
    let queue_cells = engine
        .cells_remaining_next()
        .into_iter()
        .filter(|(_, c)| c.is_some())
        .count();
    assert_eq!(queue_cells, 24);
}

#[test]
fn t_piece_walked_left_and_dropped_lands_bottom_left() {
    let mut engine = Engine::new();
    engine.create_top_cursor(Some(PieceKind::T));
    for _ in 0..3 {
        assert_eq!(engine.move_cursor(MoveKind::Left), Ok(()));
    }
    assert_eq!(engine.cursor.unwrap().position, Offset::new(0, 19));
    engine.hard_drop();
    assert_eq!(engine.cursor.unwrap().position, Offset::new(0, -1));
    assert!(engine.place_cursor());
    let mut cells = occupied_cells(&engine);
    cells.sort_by_key(|(x, y, _)| (*x, *y));
    assert_eq!(
        cells,
        vec![
            (0, 0, TetriminoColor::Purple),
            (1, 0, TetriminoColor::Purple),
            (1, 1, TetriminoColor::Purple),
            (2, 0, TetriminoColor::Purple),
        ]
    );
    assert_eq!(engine.score, 0);
    assert_eq!(engine.lines_reached, 0);
    assert!(engine.matrix.full_lines().is_empty());
}

#[test]
fn move_into_wall_is_rejected_and_cursor_kept() {
    let mut engine = Engine::new();
    engine.create_top_cursor(Some(PieceKind::T));
    for _ in 0..3 {
        assert_eq!(engine.move_cursor(MoveKind::Left), Ok(()));
    }
    assert_eq!(engine.move_cursor(MoveKind::Left), Err(()));
    assert_eq!(engine.cursor.unwrap().position, Offset::new(0, 19));
}

#[test]
fn blocked_rotation_is_rejected_and_cursor_kept() {
    let mut engine = Engine::new();
    engine.create_top_cursor(Some(PieceKind::I));
    // A vertical I against the right wall cannot turn flat.
    engine.cursor = Some(tetris::piece::Piece {
        kind: PieceKind::I,
        position: Offset::new(8, 0),
        rotation: Rotation::W,
    });
    assert_eq!(engine.rotate_and_adjust_cursor(Rotation::N), None);
    let cursor = engine.cursor.unwrap();
    assert_eq!(cursor.rotation, Rotation::W);
    assert_eq!(cursor.position, Offset::new(8, 0));
    // In open space the same turn succeeds.
    engine.cursor = Some(tetris::piece::Piece {
        kind: PieceKind::I,
        position: Offset::new(4, 5),
        rotation: Rotation::W,
    });
    assert_eq!(engine.rotate_and_adjust_cursor(Rotation::N), Some(()));
    assert_eq!(engine.cursor.unwrap().rotation, Rotation::N);
}

#[test]
fn completing_a_row_scores_one_line() {
    let mut engine = Engine::new();
    for x in 0..6 {
        engine
            .matrix
            .set(Coordinate::new(x, 0), Some(TetriminoColor::Green));
    }
    engine.cursor = Some(tetris::piece::Piece {
        kind: PieceKind::I,
        position: Offset::new(6, 2),
        rotation: Rotation::N,
    });
    engine.hard_drop();
    assert!(engine.place_cursor());
    assert_eq!(engine.matrix.full_lines(), vec![0]);
    let cleared = engine.line_clear();
    assert_eq!(cleared, vec![0]);
    assert_eq!(engine.score, 1);
    assert_eq!(engine.lines_reached, 1);
    assert_eq!(engine.level, 1);
    assert!(occupied_cells(&engine).is_empty());
}

#[test]
fn level_advances_every_ten_lines() {
    let mut engine = Engine::new();
    engine.lines_reached = 9;
    for x in 0..10 {
        engine
            .matrix
            .set(Coordinate::new(x, 0), Some(TetriminoColor::Red));
    }
    let cleared = engine.line_clear();
    assert_eq!(cleared, vec![0]);
    assert_eq!(engine.level, 2);
    assert_eq!(engine.lines_reached, 0);
    assert_eq!(engine.score, 1);
}

#[test]
fn hold_banks_once_per_placement() {
    let mut engine = Engine::new();
    engine.create_top_cursor(None);
    let first_kind = engine.cursor.unwrap().kind;
    assert_eq!(engine.try_hold(), Some(true));
    assert_eq!(engine.hold, Some(first_kind));
    assert!(engine.cursor.is_some());
    // A second hold without an intervening placement is a no-op.
    let held_before = engine.hold;
    let cursor_before = engine.cursor;
    assert_eq!(engine.try_hold(), Some(false));
    assert_eq!(engine.hold, held_before);
    assert_eq!(engine.cursor, cursor_before);
}

#[test]
fn hold_releases_after_a_placement() {
    let mut engine = Engine::new();
    engine.create_top_cursor(None);
    let first_kind = engine.cursor.unwrap().kind;
    assert_eq!(engine.try_hold(), Some(true));
    engine.hard_drop();
    assert!(engine.place_cursor());
    engine.create_top_cursor(None);
    // The lock opened: holding again swaps the banked kind back in, as
    // long as the new cursor is of another kind.
    if engine.cursor.unwrap().kind != first_kind {
        assert_eq!(engine.try_hold(), Some(true));
        assert_eq!(engine.cursor.unwrap().kind, first_kind);
    }
}

#[test]
fn hold_preview_shows_banked_piece() {
    let mut engine = Engine::new();
    engine.create_top_cursor(Some(PieceKind::Z));
    assert_eq!(engine.try_hold(), Some(true));
    let shown: Vec<_> = engine
        .cells_hold()
        .into_iter()
        .filter_map(|(_, c)| c)
        .collect();
    assert_eq!(shown.len(), 4);
    assert!(shown.iter().all(|c| *c == PieceKind::Z.color()));
}

#[test]
fn hold_without_cursor_reports_nothing() {
    let mut engine = Engine::new();
    assert_eq!(engine.try_hold(), None);
}

#[test]
fn unplaceable_cursor_is_reported_without_stamping() {
    let mut engine = Engine::new();
    engine.create_top_cursor(Some(PieceKind::T));
    // Spawned above the field, the cursor cannot be placed there.
    assert!(!engine.place_cursor());
    assert!(occupied_cells(&engine).is_empty());
    // An absent cursor is tolerated by the lenient variant.
    engine.cursor = None;
    assert!(engine.try_place_cursor());
}

#[test]
fn drop_time_follows_the_gravity_curve() {
    let mut engine = Engine::new();
    // Level 1: (0.8 - 2 * 0.007)^2 = 0.786^2 seconds, in microseconds.
    assert_eq!(engine.drop_time(false), 617_796);
    assert_eq!(engine.drop_time(true), 617_796 / 20);
    engine.level = 2;
    // Level 2: 0.779^3 seconds.
    assert_eq!(engine.drop_time(false), 472_729);
}

#[test]
fn reset_clears_game_but_keeps_queue_and_hold() {
    let mut engine = Engine::new();
    engine.create_top_cursor(Some(PieceKind::S));
    assert_eq!(engine.try_hold(), Some(true));
    let queue = engine.next.clone();
    let hold = engine.hold;
    engine.score = 5;
    engine.level = 3;
    engine.lines_reached = 4;
    engine
        .matrix
        .set(Coordinate::new(0, 0), Some(TetriminoColor::Red));
    engine.reset();
    assert!(engine.cursor.is_none());
    assert!(occupied_cells(&engine).is_empty());
    assert_eq!(engine.level, 1);
    assert_eq!(engine.score, 0);
    assert_eq!(engine.lines_reached, 0);
    assert_eq!(engine.next, queue);
    assert_eq!(engine.hold, hold);
}

#[test]
fn ticking_down_reports_bottom() {
    let mut engine = Engine::new();
    engine.create_top_cursor(Some(PieceKind::T));
    assert!(!engine.cursor_has_hit_bottom());
    let down = engine.ticked_down_cursor().unwrap();
    assert_eq!(down.position, Offset::new(3, 18));
    engine.try_tick_down();
    assert_eq!(engine.cursor.unwrap().position, Offset::new(3, 18));
    engine.hard_drop();
    assert!(engine.cursor_has_hit_bottom());
    assert!(engine.ticked_down_cursor().is_none());
}

use tetris::color::TetriminoColor;
use tetris::engine::Engine;
use tetris::input::Input;
use tetris::move_kind::MoveKind;
use tetris::piece_kind::PieceKind;
use tetris::session::Session;
use tetris::state::State;
use tetris::Coordinate;

fn field_is_empty(session: &Session) -> bool {
    for y in 0..20 {
        for x in 0..10 {
            if session.engine.matrix.get(Coordinate::new(x, y)).is_some() {
                return false;
            }
        }
    }
    true
}

#[test]
fn session_starts_ticking_down() {
    let mut session = Session::new(Engine::new());
    assert_eq!(session.state, State::TickingDown);
    let fx = session.start();
    assert!(fx.set_tick_timer);
    assert!(fx.dirty);
    assert!(session.engine.cursor.is_some());
}

#[test]
fn gravity_tick_moves_cursor_down() {
    let mut session = Session::new(Engine::new());
    session.start();
    let before = session.engine.cursor.unwrap().position;
    let fx = session.on_gravity_tick();
    assert!(fx.set_tick_timer);
    assert!(fx.dirty);
    let after = session.engine.cursor.unwrap().position;
    assert_eq!(after.x, before.x);
    assert_eq!(after.y, before.y - 1);
    assert_eq!(session.state, State::TickingDown);
}

#[test]
fn bottomed_cursor_on_gravity_tick_is_game_over_without_stamping() {
    let mut session = Session::new(Engine::new());
    session.start();
    session.engine.hard_drop();
    assert_eq!(session.state, State::TickingDown);
    let fx = session.on_gravity_tick();
    assert!(fx.set_tick_timer);
    assert_eq!(session.state, State::GameOver);
    assert!(field_is_empty(&session));
}

#[test]
fn landing_arms_the_lockdown_timer() {
    let mut session = Session::new(Engine::new());
    session.start();
    // Tick until the cursor sits one row above bottom, then once more.
    loop {
        let fx = session.on_gravity_tick();
        if session.state != State::TickingDown {
            assert_eq!(session.state, State::LockingDown);
            assert!(fx.set_lockdown_timer);
            break;
        }
    }
    assert!(session.lockdown_timer_count > 0);
}

#[test]
fn lockdown_tick_places_and_spawns() {
    let mut session = Session::new(Engine::new());
    session.start();
    let falling_kind = session.engine.cursor.unwrap().kind;
    loop {
        session.on_gravity_tick();
        if session.state == State::LockingDown {
            break;
        }
    }
    let fx = session.on_lockdown_tick();
    assert_eq!(session.state, State::LockedDown);
    assert!(fx.set_tick_timer);
    assert!(fx.dirty);
    assert!(!field_is_empty(&session));
    // The stamped cells carry the landed piece's color.
    let mut colors = Vec::new();
    for y in 0..20 {
        for x in 0..10 {
            if let Some(c) = session.engine.matrix.get(Coordinate::new(x, y)) {
                colors.push(c);
            }
        }
    }
    assert_eq!(colors.len(), 4);
    assert!(colors.iter().all(|c| *c == falling_kind.color()));
    // The frame ends with the line-clear pass and normal ticking.
    let cleared = session.finish_frame();
    assert!(cleared.is_empty());
    assert_eq!(session.state, State::TickingDown);
    assert_eq!(session.lockdown_timer_count, 0);
}

#[test]
fn stale_lockdown_tick_is_ignored() {
    let mut session = Session::new(Engine::new());
    session.start();
    assert_eq!(session.state, State::TickingDown);
    let fx = session.on_lockdown_tick();
    assert!(!fx.set_lockdown_timer);
    assert!(!fx.dirty);
    assert_eq!(session.state, State::TickingDown);
}

#[test]
fn hard_drop_input_locks_down_and_spawns() {
    let mut session = Session::new(Engine::new());
    session.start();
    let fx = session.on_key_down(Input::HardDrop);
    assert!(fx.dirty);
    assert_eq!(session.state, State::LockedDown);
    assert!(!field_is_empty(&session));
    assert!(session.engine.cursor.is_some());
    session.finish_frame();
    assert_eq!(session.state, State::TickingDown);
}

#[test]
fn soft_drop_key_speeds_up_and_releases() {
    let mut session = Session::new(Engine::new());
    session.start();
    let normal = session.tick_interval_micros();
    let fx = session.on_key_down(Input::SoftDrop);
    assert!(fx.set_tick_timer);
    assert_eq!(session.state, State::SoftDropping);
    let soft = session.tick_interval_micros();
    assert_eq!(soft, normal / 20);
    let fx_up = session.on_key_up(Input::SoftDrop);
    assert!(!fx_up.set_tick_timer);
    assert_eq!(session.state, State::TickingDown);
}

#[test]
fn pause_toggles_back_to_the_interrupted_state() {
    let mut session = Session::new(Engine::new());
    session.start();
    session.on_key_down(Input::SoftDrop);
    assert_eq!(session.state, State::SoftDropping);
    session.on_key_down(Input::Pause);
    assert_eq!(session.state, State::Paused);
    // Steering inputs are shut out while paused.
    let cursor = session.engine.cursor;
    let fx = session.on_key_down(Input::Move(MoveKind::Left));
    assert!(!fx.dirty);
    assert_eq!(session.engine.cursor, cursor);
    session.on_key_down(Input::Pause);
    assert_eq!(session.state, State::SoftDropping);
}

#[test]
fn moves_during_lockdown_rearm_the_grace_timer() {
    let mut session = Session::new(Engine::new());
    session.start();
    // Force a T cursor for predictable sideways room.
    session.engine.create_top_cursor(Some(PieceKind::T));
    loop {
        session.on_gravity_tick();
        if session.state == State::LockingDown {
            break;
        }
    }
    let count = session.lockdown_timer_count;
    let fx = session.on_key_down(Input::Move(MoveKind::Left));
    assert!(fx.set_lockdown_timer);
    assert_eq!(session.lockdown_timer_count, count + 1);
    assert_eq!(session.state, State::LockingDown);
}

#[test]
fn lockdown_rearms_are_capped() {
    let mut session = Session::new(Engine::new());
    session.start();
    session.engine.create_top_cursor(Some(PieceKind::T));
    loop {
        session.on_gravity_tick();
        if session.state == State::LockingDown {
            break;
        }
    }
    let mut rearms = 0;
    for i in 0..40 {
        let kind = if i % 2 == 0 {
            MoveKind::Left
        } else {
            MoveKind::Right
        };
        let fx = session.on_key_down(Input::Move(kind));
        if fx.set_lockdown_timer {
            rearms += 1;
        }
    }
    assert!(rearms < 40);
    assert_eq!(session.lockdown_timer_count, 16);
}

#[test]
fn continue_restarts_after_game_over() {
    let mut session = Session::new(Engine::new());
    session.start();
    session.engine.score = 7;
    session
        .engine
        .matrix
        .set(Coordinate::new(0, 0), Some(TetriminoColor::Red));
    session.state = State::GameOver;
    // Continue is refused outside game over only; here it restarts.
    let fx = session.on_key_down(Input::Continue);
    assert!(fx.set_tick_timer);
    assert!(fx.dirty);
    assert_eq!(session.state, State::TickingDown);
    assert_eq!(session.engine.score, 0);
    assert_eq!(session.engine.level, 1);
    assert!(field_is_empty(&session));
    assert!(session.engine.cursor.is_some());
    assert_eq!(session.lockdown_timer_count, 0);
}

#[test]
fn continue_is_refused_while_playing() {
    let mut session = Session::new(Engine::new());
    session.start();
    session.engine.score = 3;
    let fx = session.on_key_down(Input::Continue);
    assert!(!fx.dirty);
    assert_eq!(session.engine.score, 3);
    assert_eq!(session.state, State::TickingDown);
}

#[test]
fn hold_input_banks_the_cursor_once() {
    let mut session = Session::new(Engine::new());
    session.start();
    let kind = session.engine.cursor.unwrap().kind;
    let fx = session.on_key_down(Input::Hold);
    assert!(fx.dirty);
    assert_eq!(session.engine.hold, Some(kind));
    let fx2 = session.on_key_down(Input::Hold);
    assert!(fx2.dirty);
    assert_eq!(session.engine.hold, Some(kind));
}

#[test]
fn lockdown_tick_revalidates_a_cursor_that_can_still_fall() {
    let mut session = Session::new(Engine::new());
    session.start();
    session.engine.create_top_cursor(Some(PieceKind::T));
    // A stale grace-period firing while the cursor can still fall must
    // not place it: it gets a fresh grace period instead.
    session.state = State::LockingDown;
    let fx = session.on_lockdown_tick();
    assert!(fx.set_lockdown_timer);
    assert!(!fx.set_tick_timer);
    assert_eq!(session.state, State::LockingDown);
    assert!(field_is_empty(&session));
}

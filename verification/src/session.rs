use vstd::prelude::*;

use crate::engine::{bottomed_spec, can_tick_spec, drop_time_micros_spec, hard_dropped_rel,
    hold_rel, line_cleared_rel, moved_spec, spawned_rel, stamped_spec, ticked_spec, Engine};
use crate::input::Input;
use crate::state::State;

verus! {

/// What the event loop must do after a state-machine step: rearm the
/// gravity timer, rearm the lock-down grace timer, or redraw the screen.
#[derive(Clone, Copy, PartialEq, Eq, Structural, Debug)]
pub struct Effects {
    pub set_tick_timer: bool,
    pub set_lockdown_timer: bool,
    pub dirty: bool,
}

/// No timer rearms and no redraw.
pub open spec fn no_effects() -> Effects {
    Effects { set_tick_timer: false, set_lockdown_timer: false, dirty: false }
}

/// Whether the lock-down grace timer may be rearmed once more: rearms per
/// placement are capped so that a piece locks eventually even under
/// move and rotate spam.
pub open spec fn rearm_flag(count: i32) -> bool {
    count <= 15
}

/// The rearm counter after a rearm request: one more while under the cap.
pub open spec fn rearm_count(count: i32) -> int {
    if count <= 15 {
        count + 1
    } else {
        count as int
    }
}

/// The lock-down timing state machine: the engine, the top-level state, a
/// memo of the state that pausing left, and the cap counter for lock-down
/// timer rearms. The event loop feeds it gravity ticks, lock-down ticks
/// and decoded inputs; it answers with the timers to rearm.
pub struct Session {
    pub engine: Engine,
    pub state: State,
    pub resume_state: State,
    pub lockdown_timer_count: i32,
}

/// Whether inputs that steer the game are shut out: while paused, and
/// after game over.
pub open spec fn guarded(s: Session) -> bool {
    s.state == State::Paused || s.state == State::GameOver
}

impl Session {
    /// The session's structural invariant: a sound engine, a rearm counter
    /// within its cap, and a cursor present whenever lock-down is in
    /// progress, also behind a pause.
    pub open spec fn wf(self) -> bool {
        &&& self.engine.wf()
        &&& 0 <= self.lockdown_timer_count <= 16
        &&& self.state == State::LockingDown ==> self.engine.cursor is Some
        &&& (self.state == State::Paused && self.resume_state == State::LockingDown)
            ==> self.engine.cursor is Some
        &&& self.resume_state != State::Paused
    }

    /// A session over a fresh or restored engine, ticking down.
    pub fn new(engine: Engine) -> (r: Session)
        requires
            engine.wf(),
        ensures
            r.wf(),
            r.engine == engine,
            r.state == State::TickingDown,
            r.resume_state == State::TickingDown,
            r.lockdown_timer_count == 0,
    {
        Session {
            engine,
            state: State::TickingDown,
            resume_state: State::TickingDown,
            lockdown_timer_count: 0,
        }
    }

    /// The interval to rearm the gravity timer with, in microseconds:
    /// the level's gravity, twenty times faster while soft-dropping.
    pub fn tick_interval_micros(&self) -> (r: u64)
        ensures
            r as int == drop_time_micros_spec(
                self.engine.level as int,
                self.state == State::SoftDropping,
            ),
    {
        self.engine.drop_time(self.state == State::SoftDropping)
    }

    /// Spawn the first cursor and ask for the first gravity tick.
    pub fn start(&mut self) -> (r: Effects)
        requires
            old(self).wf(),
        ensures
            final(self).wf(),
            spawned_rel(old(self).engine, None, final(self).engine),
            final(self).state == old(self).state,
            final(self).resume_state == old(self).resume_state,
            final(self).lockdown_timer_count == old(self).lockdown_timer_count,
            r == (Effects { set_tick_timer: true, set_lockdown_timer: false, dirty: true }),
    {
        self.engine.create_top_cursor(None);
        Effects { set_tick_timer: true, set_lockdown_timer: false, dirty: true }
    }

    /// Rearm the lock-down grace timer, counting toward the per-placement
    /// cap; over the cap the request is refused.
    fn arm_lockdown(&mut self) -> (r: bool)
        requires
            old(self).wf(),
        ensures
            final(self).wf(),
            final(self).engine == old(self).engine,
            final(self).state == old(self).state,
            final(self).resume_state == old(self).resume_state,
            r == rearm_flag(old(self).lockdown_timer_count),
            final(self).lockdown_timer_count == rearm_count(old(self).lockdown_timer_count),
    {
        if self.lockdown_timer_count > 15 {
            return false;
        }
        self.lockdown_timer_count += 1;
        true
    }

    /// A gravity tick. The gravity timer is always rearmed first. While
    /// paused or after game over nothing else happens. A cursor already
    /// bottomed out during normal ticking means game over, without
    /// stamping the field. Otherwise the cursor ticks down one row if it
    /// can, and on touching bottom the lock-down grace period is armed.
    pub fn on_gravity_tick(&mut self) -> (r: Effects)
        requires
            old(self).wf(),
        ensures
            final(self).wf(),
            r.set_tick_timer,
            final(self).resume_state == old(self).resume_state,
            guarded(*old(self)) ==> *final(self) == *old(self) && !r.set_lockdown_timer
                && !r.dirty,
            !guarded(*old(self)) ==> {
                let s1 = if bottomed_spec(old(self).engine.matrix, old(self).engine.cursor)
                    && old(self).state == State::TickingDown {
                    State::GameOver
                } else {
                    old(self).state
                };
                &&& r.dirty
                &&& old(self).engine.same_but_cursor(final(self).engine)
                &&& final(self).engine.rng == old(self).engine.rng
                &&& if can_tick_spec(old(self).engine.matrix, old(self).engine.cursor) {
                    &&& final(self).engine.cursor == Some(
                        ticked_spec(old(self).engine.cursor.unwrap()),
                    )
                    &&& if bottomed_spec(old(self).engine.matrix, final(self).engine.cursor) {
                        &&& final(self).state == State::LockingDown
                        &&& r.set_lockdown_timer == rearm_flag(old(self).lockdown_timer_count)
                        &&& final(self).lockdown_timer_count == rearm_count(
                            old(self).lockdown_timer_count,
                        )
                    } else {
                        &&& final(self).state == s1
                        &&& !r.set_lockdown_timer
                        &&& final(self).lockdown_timer_count == old(self).lockdown_timer_count
                    }
                } else {
                    &&& final(self).engine.cursor == old(self).engine.cursor
                    &&& final(self).state == s1
                    &&& !r.set_lockdown_timer
                    &&& final(self).lockdown_timer_count == old(self).lockdown_timer_count
                }
            },
    {
        let mut fx = Effects { set_tick_timer: true, set_lockdown_timer: false, dirty: false };
        if self.state == State::Paused || self.state == State::GameOver {
            return fx;
        }
        if self.engine.cursor_has_hit_bottom() && self.state == State::TickingDown {
            self.state = State::GameOver;
        }
        if self.engine.ticked_down_cursor().is_some() {
            self.engine.try_tick_down();
            if self.engine.cursor_has_hit_bottom() {
                self.state = State::LockingDown;
                fx.set_lockdown_timer = self.arm_lockdown();
            }
        }
        fx.dirty = true;
        fx
    }

    /// The lock-down grace timer fired. Outside lock-down it is stale and
    /// ignored. A cursor moved off the bottom since arming gets a fresh
    /// grace period. Otherwise the cursor is placed: failure is game
    /// over; success spawns the next cursor and hands the frame over to
    /// the line-clear pass.
    pub fn on_lockdown_tick(&mut self) -> (r: Effects)
        requires
            old(self).wf(),
        ensures
            final(self).wf(),
            final(self).resume_state == old(self).resume_state,
            old(self).state != State::LockingDown ==> *final(self) == *old(self) && r
                == no_effects(),
            old(self).state == State::LockingDown ==> {
                if can_tick_spec(old(self).engine.matrix, old(self).engine.cursor) {
                    &&& final(self).engine == old(self).engine
                    &&& final(self).state == State::LockingDown
                    &&& !r.set_tick_timer
                    &&& !r.dirty
                    &&& r.set_lockdown_timer == rearm_flag(old(self).lockdown_timer_count)
                    &&& final(self).lockdown_timer_count == rearm_count(
                        old(self).lockdown_timer_count,
                    )
                } else if !old(self).engine.matrix.placeable_spec(
                    old(self).engine.cursor.unwrap(),
                ) {
                    &&& final(self).engine == old(self).engine
                    &&& final(self).state == State::GameOver
                    &&& r == no_effects()
                    &&& final(self).lockdown_timer_count == old(self).lockdown_timer_count
                } else {
                    &&& stamped_spec(
                        old(self).engine.matrix,
                        old(self).engine.cursor.unwrap(),
                        final(self).engine.matrix,
                    )
                    &&& spawned_rel(
                        Engine {
                            matrix: final(self).engine.matrix,
                            hold_locked: false,
                            ..old(self).engine
                        },
                        None,
                        final(self).engine,
                    )
                    &&& final(self).state == State::LockedDown
                    &&& r.set_tick_timer
                    &&& r.dirty
                    &&& !r.set_lockdown_timer
                    &&& final(self).lockdown_timer_count == old(self).lockdown_timer_count
                }
            },
    {
        let mut fx = Effects { set_tick_timer: false, set_lockdown_timer: false, dirty: false };
        if self.state != State::LockingDown {
            return fx;
        }
        if self.engine.ticked_down_cursor().is_some() {
            fx.set_lockdown_timer = self.arm_lockdown();
            return fx;
        }
        let ok = self.engine.place_cursor();
        if !ok {
            self.state = State::GameOver;
            return fx;
        }
        self.engine.create_top_cursor(None);
        self.state = State::LockedDown;
        fx.set_tick_timer = true;
        fx.dirty = true;
        fx
    }

    /// A key released. Only releasing soft drop matters: it ends the
    /// accelerated fall.
    pub fn on_key_up(&mut self, input: Input) -> (r: Effects)
        requires
            old(self).wf(),
        ensures
            final(self).wf(),
            r == no_effects(),
            final(self).engine == old(self).engine,
            final(self).resume_state == old(self).resume_state,
            final(self).lockdown_timer_count == old(self).lockdown_timer_count,
            final(self).state == (if input == Input::SoftDrop && old(self).state
                == State::SoftDropping {
                State::TickingDown
            } else {
                old(self).state
            }),
    {
        match input {
            Input::SoftDrop => {
                if self.state == State::SoftDropping {
                    self.state = State::TickingDown;
                }
            },
            _ => {},
        }
        Effects { set_tick_timer: false, set_lockdown_timer: false, dirty: false }
    }

    /// A key pressed, as a decoded input.
    pub fn on_key_down(&mut self, input: Input) -> (r: Effects)
        requires
            old(self).wf(),
        ensures
            final(self).wf(),
            key_down_rel(*old(self), input, *final(self), r),
    {
        let mut fx = Effects { set_tick_timer: false, set_lockdown_timer: false, dirty: false };
        match input {
            Input::Move(kind) => {
                if self.state == State::Paused || self.state == State::GameOver {
                    return fx;
                }
                let moved = self.engine.move_cursor(kind);
                if moved.is_ok() && self.engine.cursor.is_some() && self.state
                    == State::LockingDown {
                    fx.set_lockdown_timer = self.arm_lockdown();
                }
                fx.dirty = true;
            },
            Input::Rotation(kind) => {
                if self.state == State::Paused || self.state == State::GameOver {
                    return fx;
                }
                let rotated = self.engine.rotate_and_adjust_cursor(kind);
                if rotated.is_some() && self.state == State::LockingDown {
                    fx.set_lockdown_timer = self.arm_lockdown();
                }
                fx.dirty = true;
            },
            Input::HardDrop => {
                if self.state == State::Paused || self.state == State::GameOver {
                    return fx;
                }
                self.engine.hard_drop();
                let ok = self.engine.try_place_cursor();
                if !ok {
                    self.state = State::GameOver;
                    return fx;
                }
                self.engine.create_top_cursor(None);
                self.state = State::LockedDown;
                fx.dirty = true;
            },
            Input::SoftDrop => {
                if self.state == State::Paused || self.state == State::GameOver {
                    return fx;
                }
                if self.state != State::SoftDropping && self.state != State::LockingDown {
                    self.state = State::SoftDropping;
                    fx.set_tick_timer = true;
                }
                fx.dirty = true;
            },
            Input::Pause => {
                if self.state == State::GameOver {
                    return fx;
                }
                if self.state == State::Paused {
                    self.state = self.resume_state;
                    if self.state == State::LockingDown {
                        fx.set_lockdown_timer = self.arm_lockdown();
                    }
                } else {
                    self.resume_state = self.state;
                    self.state = State::Paused;
                }
                fx.dirty = true;
            },
            Input::Hold => {
                if self.state == State::Paused || self.state == State::GameOver {
                    return fx;
                }
                let _ = self.engine.try_hold();
                fx.dirty = true;
            },
            Input::Continue => {
                if self.state != State::GameOver {
                    return fx;
                }
                self.state = State::TickingDown;
                self.engine.reset();
                self.engine.create_top_cursor(None);
                self.lockdown_timer_count = 0;
                fx.set_tick_timer = true;
                fx.dirty = true;
            },
        }
        fx
    }

    /// The end-of-frame housekeeping: after a placement locked down, run
    /// the line-clear pass, return to normal ticking, and reopen the
    /// lock-down rearm budget. The cleared rows are returned so the
    /// caller can animate them.
    pub fn finish_frame(&mut self) -> (r: Vec<usize>)
        requires
            old(self).wf(),
        ensures
            final(self).wf(),
            final(self).resume_state == old(self).resume_state,
            old(self).state != State::LockedDown ==> *final(self) == *old(self) && r@.len() == 0,
            old(self).state == State::LockedDown ==> {
                &&& line_cleared_rel(old(self).engine, final(self).engine, r@)
                &&& final(self).state == State::TickingDown
                &&& final(self).lockdown_timer_count == 0
            },
    {
        if self.state != State::LockedDown {
            return Vec::new();
        }
        let lines = self.engine.line_clear();
        self.state = State::TickingDown;
        self.lockdown_timer_count = 0;
        lines
    }
}

/// How a key press changes the session, by input. Steering inputs are
/// shut out while paused and after game over; pause itself toggles in
/// and out, returning to the state it interrupted; continue restarts
/// only after game over. A successful move or rotation during lock-down
/// grants a fresh grace period, within the rearm cap.
pub open spec fn key_down_rel(s0: Session, input: Input, s1: Session, r: Effects) -> bool {
    match input {
        Input::Move(k) => {
            if guarded(s0) {
                s1 == s0 && r == no_effects()
            } else {
                &&& s1.state == s0.state
                &&& s1.resume_state == s0.resume_state
                &&& !r.set_tick_timer
                &&& r.dirty
                &&& s0.engine.same_but_cursor(s1.engine)
                &&& s1.engine.rng == s0.engine.rng
                &&& match s0.engine.cursor {
                    None => {
                        &&& s1.engine.cursor is None
                        &&& !r.set_lockdown_timer
                        &&& s1.lockdown_timer_count == s0.lockdown_timer_count
                    },
                    Some(c) => {
                        if s0.engine.matrix.clipping_spec(moved_spec(c, k)) {
                            &&& s1.engine.cursor == Some(c)
                            &&& !r.set_lockdown_timer
                            &&& s1.lockdown_timer_count == s0.lockdown_timer_count
                        } else {
                            &&& s1.engine.cursor == Some(moved_spec(c, k))
                            &&& if s0.state == State::LockingDown {
                                r.set_lockdown_timer == rearm_flag(s0.lockdown_timer_count)
                                    && s1.lockdown_timer_count == rearm_count(
                                    s0.lockdown_timer_count,
                                )
                            } else {
                                !r.set_lockdown_timer && s1.lockdown_timer_count
                                    == s0.lockdown_timer_count
                            }
                        }
                    },
                }
            }
        },
        Input::Rotation(k) => {
            if guarded(s0) {
                s1 == s0 && r == no_effects()
            } else {
                &&& s1.state == s0.state
                &&& s1.resume_state == s0.resume_state
                &&& !r.set_tick_timer
                &&& r.dirty
                &&& s0.engine.same_but_cursor(s1.engine)
                &&& s1.engine.rng == s0.engine.rng
                &&& match s0.engine.cursor {
                    None => {
                        &&& s1.engine.cursor is None
                        &&& !r.set_lockdown_timer
                        &&& s1.lockdown_timer_count == s0.lockdown_timer_count
                    },
                    Some(c) => {
                        if s0.engine.matrix.out_of_bounds_or_overlap_spec(
                            crate::piece::Piece { rotation: k, ..c },
                        ) {
                            &&& s1.engine.cursor == Some(c)
                            &&& !r.set_lockdown_timer
                            &&& s1.lockdown_timer_count == s0.lockdown_timer_count
                        } else {
                            &&& s1.engine.cursor == Some(crate::piece::Piece { rotation: k, ..c })
                            &&& if s0.state == State::LockingDown {
                                r.set_lockdown_timer == rearm_flag(s0.lockdown_timer_count)
                                    && s1.lockdown_timer_count == rearm_count(
                                    s0.lockdown_timer_count,
                                )
                            } else {
                                !r.set_lockdown_timer && s1.lockdown_timer_count
                                    == s0.lockdown_timer_count
                            }
                        }
                    },
                }
            }
        },
        Input::HardDrop => {
            if guarded(s0) {
                s1 == s0 && r == no_effects()
            } else {
                &&& !r.set_lockdown_timer
                &&& !r.set_tick_timer
                &&& s1.lockdown_timer_count == s0.lockdown_timer_count
                &&& s1.resume_state == s0.resume_state
                &&& match s0.engine.cursor {
                    None => {
                        &&& spawned_rel(s0.engine, None, s1.engine)
                        &&& s1.state == State::LockedDown
                        &&& r.dirty
                    },
                    Some(c) => exists|q: crate::piece::Piece|
                        {
                            &&& #[trigger] hard_dropped_rel(s0.engine.matrix, c, q)
                            &&& if !s0.engine.matrix.placeable_spec(q) {
                                &&& s1.state == State::GameOver
                                &&& !r.dirty
                                &&& s0.engine.same_but_cursor(s1.engine)
                                &&& s1.engine.rng == s0.engine.rng
                                &&& s1.engine.cursor == Some(q)
                            } else {
                                &&& stamped_spec(s0.engine.matrix, q, s1.engine.matrix)
                                &&& spawned_rel(
                                    Engine {
                                        matrix: s1.engine.matrix,
                                        hold_locked: false,
                                        cursor: Some(q),
                                        ..s0.engine
                                    },
                                    None,
                                    s1.engine,
                                )
                                &&& s1.state == State::LockedDown
                                &&& r.dirty
                            }
                        },
                }
            }
        },
        Input::SoftDrop => {
            if guarded(s0) {
                s1 == s0 && r == no_effects()
            } else {
                &&& s1.engine == s0.engine
                &&& s1.resume_state == s0.resume_state
                &&& s1.lockdown_timer_count == s0.lockdown_timer_count
                &&& !r.set_lockdown_timer
                &&& r.dirty
                &&& if s0.state != State::SoftDropping && s0.state != State::LockingDown {
                    s1.state == State::SoftDropping && r.set_tick_timer
                } else {
                    s1.state == s0.state && !r.set_tick_timer
                }
            }
        },
        Input::Pause => {
            if s0.state == State::GameOver {
                s1 == s0 && r == no_effects()
            } else if s0.state == State::Paused {
                &&& s1.state == s0.resume_state
                &&& s1.resume_state == s0.resume_state
                &&& s1.engine == s0.engine
                &&& r.dirty
                &&& !r.set_tick_timer
                &&& if s0.resume_state == State::LockingDown {
                    r.set_lockdown_timer == rearm_flag(s0.lockdown_timer_count)
                        && s1.lockdown_timer_count == rearm_count(s0.lockdown_timer_count)
                } else {
                    !r.set_lockdown_timer && s1.lockdown_timer_count == s0.lockdown_timer_count
                }
            } else {
                &&& s1.state == State::Paused
                &&& s1.resume_state == s0.state
                &&& s1.engine == s0.engine
                &&& r.dirty
                &&& !r.set_tick_timer
                &&& !r.set_lockdown_timer
                &&& s1.lockdown_timer_count == s0.lockdown_timer_count
            }
        },
        Input::Hold => {
            if guarded(s0) {
                s1 == s0 && r == no_effects()
            } else {
                &&& s1.state == s0.state
                &&& s1.resume_state == s0.resume_state
                &&& s1.lockdown_timer_count == s0.lockdown_timer_count
                &&& !r.set_tick_timer
                &&& !r.set_lockdown_timer
                &&& r.dirty
                &&& exists|hr: Option<bool>| #[trigger] hold_rel(s0.engine, s1.engine, hr)
            }
        },
        Input::Continue => {
            if s0.state != State::GameOver {
                s1 == s0 && r == no_effects()
            } else {
                &&& s1.state == State::TickingDown
                &&& s1.resume_state == s0.resume_state
                &&& s1.engine.matrix.same_dims(s0.engine.matrix)
                &&& forall|x: int, y: int|
                    s1.engine.matrix.in_field(x, y) ==> !s1.engine.matrix.occupied(x, y)
                &&& spawned_rel(
                    Engine {
                        cursor: None,
                        level: 1,
                        score: 0,
                        lines_reached: 0,
                        hold_locked: false,
                        matrix: s1.engine.matrix,
                        ..s0.engine
                    },
                    None,
                    s1.engine,
                )
                &&& s1.lockdown_timer_count == 0
                &&& r.set_tick_timer
                &&& r.dirty
                &&& !r.set_lockdown_timer
            }
        },
    }
}

} // verus!

//! The order of events within a turn: a picked square pulses for a moment
//! before the move is made, and the computer waits a moment before it picks.
//!
//! Time is counted in nanoseconds. Whoever drives the game measures how much
//! has passed and hands it to [`advance`].

use vstd::prelude::*;
use crate::ai::model::level_move;
use crate::game::logic::{GameState, MoveResult};
use crate::game::types::GameOutcome;

verus! {

/// How long a picked square pulses: 400 ms.
pub const PULSE_NANOS: u64 = 400_000_000;

/// How long the computer waits before it picks: 160 ms.
pub const WAIT_BEFORE_CPU_NANOS: u64 = 160_000_000;

/// The phases of a turn.
#[derive(Debug, Clone, Copy, PartialEq, Eq, Structural)]
pub enum AnimPhase {
    /// Waiting for the player to click.
    Idle,
    /// Player clicked (col, row): the square pulses, then the move is made.
    PlayerPulse { col: usize, row: usize, time_left: u64, total: u64 },
    /// Player move was applied. Short pause before the computer picks.
    WaitBeforeCpu { time_left: u64 },
    /// The computer has chosen (col, row): the square pulses, then the move is made.
    CpuPulse { col: usize, row: usize, time_left: u64, total: u64 },
}

/// What is left of `time_left` once `elapsed` has passed.
pub open spec fn remaining(time_left: u64, elapsed: u64) -> u64 {
    if elapsed >= time_left {
        0
    } else {
        (time_left - elapsed) as u64
    }
}

impl AnimPhase {
    /// Is a pulse or wait running? Clicks are ignored meanwhile.
    pub fn is_busy(&self) -> (busy: bool)
        ensures
            busy == !(*self is Idle),
    {
        match self {
            AnimPhase::Idle => false,
            _ => true,
        }
    }

    /// Is the current pulse the computer's?
    pub fn is_cpu_pulse(&self) -> (cpu: bool)
        ensures
            cpu == (*self is CpuPulse),
    {
        match self {
            AnimPhase::CpuPulse { .. } => true,
            _ => false,
        }
    }

    /// The square that pulses now, if any, with the time left and the whole
    /// length of the pulse.
    pub fn pulse_cell(&self) -> (pulse: Option<(usize, usize, u64, u64)>)
        ensures
            pulse == match *self {
                AnimPhase::PlayerPulse { col, row, time_left, total } => Some(
                    (col, row, time_left, total),
                ),
                AnimPhase::CpuPulse { col, row, time_left, total } => Some(
                    (col, row, time_left, total),
                ),
                _ => None::<(usize, usize, u64, u64)>,
            },
    {
        match *self {
            AnimPhase::PlayerPulse { col, row, time_left, total } => Some(
                (col, row, time_left, total),
            ),
            AnimPhase::CpuPulse { col, row, time_left, total } => Some((col, row, time_left, total)),
            _ => None,
        }
    }
}

/// The player clicked on (col, row). A click on a square that can be picked
/// starts its pulse; any other click, and any click while a pulse or a wait
/// runs, is ignored.
pub fn click(phase: AnimPhase, state: &GameState, col: usize, row: usize) -> (next: AnimPhase)
    ensures
        next == if phase is Idle && state.valid_move(col, row) {
            AnimPhase::PlayerPulse { col, row, time_left: PULSE_NANOS, total: PULSE_NANOS }
        } else {
            phase
        },
{
    if phase.is_busy() {
        return phase;
    }
    if state.outcome != GameOutcome::Running {
        return phase;
    }
    if !state.is_valid_move(col, row) {
        return phase;
    }
    AnimPhase::PlayerPulse { col, row, time_left: PULSE_NANOS, total: PULSE_NANOS }
}

/// The player lets the computer begin. Before the first move of a running
/// round, and while nothing pulses, the computer's pick starts to pulse;
/// otherwise nothing changes.
pub fn computer_begins(phase: AnimPhase, state: &GameState) -> (next: AnimPhase)
    requires
        state.wf(),
    ensures
        !(state.moves_made == 0 && state.outcome == GameOutcome::Running && phase is Idle) ==> next
            == phase,
        state.moves_made == 0 && state.outcome == GameOutcome::Running && phase is Idle
            ==> computer_pulse(state, next),
{
    if state.moves_made == 0 && state.outcome == GameOutcome::Running {
        let (col, row) = state.compute_ai_move();
        if !phase.is_busy() {
            return AnimPhase::CpuPulse { col, row, time_left: PULSE_NANOS, total: PULSE_NANOS };
        }
    }
    phase
}

/// Whether `phase` is the start of the pulse of a square that the computer's
/// level owes on `state`.
pub open spec fn computer_pulse(state: &GameState, phase: AnimPhase) -> bool {
    exists|i: int|
        #![trigger state.selection.square(i)]
        0 <= i < 8 && level_move(state.ai_level as int, state.computer_view(), i) && phase == (
        AnimPhase::CpuPulse {
            col: state.selection.square(i).0 as usize,
            row: state.selection.square(i).1 as usize,
            time_left: PULSE_NANOS,
            total: PULSE_NANOS,
        })
}

/// Whether the next step of `phase` makes a move on `state`: a pulse has
/// run out on a square that can be picked.
pub open spec fn makes_move(phase: AnimPhase, state: &GameState) -> bool {
    match phase {
        AnimPhase::PlayerPulse { col, row, time_left, .. } => time_left == 0 && state.valid_move(
            col,
            row,
        ),
        AnimPhase::CpuPulse { col, row, time_left, .. } => time_left == 0 && state.valid_move(
            col,
            row,
        ),
        _ => false,
    }
}

/// Lets `elapsed` nanoseconds pass.
///
/// A pulse or wait with time left only loses time. A player's pulse that has
/// run out makes the player's move; where the round goes on, the computer's
/// wait begins. A wait that has run out starts the pulse of the computer's
/// pick, as long as the round runs. A computer's pulse that has run out makes
/// the computer's move. Otherwise the turn is idle.
pub fn advance(phase: AnimPhase, state: &mut GameState, elapsed: u64) -> (next: AnimPhase)
    requires
        old(state).wf(),
        makes_move(phase, old(state)) ==> old(state).can_count(),
    ensures
        final(state).wf(),
        match phase {
            AnimPhase::Idle => next == phase && *final(state) == *old(state),
            AnimPhase::PlayerPulse { col, row, time_left, total } => if time_left > 0 {
                &&& next == (AnimPhase::PlayerPulse {
                    col,
                    row,
                    time_left: remaining(time_left, elapsed),
                    total,
                })
                &&& *final(state) == *old(state)
            } else if old(state).valid_move(col, row) {
                &&& old(state).moved(final(state), col, row, true)
                &&& next == if final(state).outcome == GameOutcome::Running {
                    AnimPhase::WaitBeforeCpu { time_left: WAIT_BEFORE_CPU_NANOS }
                } else {
                    AnimPhase::Idle
                }
            } else {
                next == AnimPhase::Idle && *final(state) == *old(state)
            },
            AnimPhase::WaitBeforeCpu { time_left } => {
                &&& *final(state) == *old(state)
                &&& if time_left > 0 {
                    next == (AnimPhase::WaitBeforeCpu { time_left: remaining(time_left, elapsed) })
                } else if old(state).outcome == GameOutcome::Running {
                    computer_pulse(old(state), next)
                } else {
                    next == AnimPhase::Idle
                }
            },
            AnimPhase::CpuPulse { col, row, time_left, total } => if time_left > 0 {
                &&& next == (AnimPhase::CpuPulse {
                    col,
                    row,
                    time_left: remaining(time_left, elapsed),
                    total,
                })
                &&& *final(state) == *old(state)
            } else if old(state).valid_move(col, row) {
                &&& old(state).moved(final(state), col, row, false)
                &&& next == AnimPhase::Idle
            } else {
                next == AnimPhase::Idle && *final(state) == *old(state)
            },
        },
{
    match phase {
        AnimPhase::Idle => phase,
        AnimPhase::PlayerPulse { col, row, time_left, total } => {
            if time_left == 0 {
                // Pulse done: apply the player's move
                let result = state.make_move(col, row, true);
                if result == MoveResult::Continue {
                    // Game continues: schedule the computer's turn
                    AnimPhase::WaitBeforeCpu { time_left: WAIT_BEFORE_CPU_NANOS }
                } else {
                    AnimPhase::Idle
                }
            } else {
                AnimPhase::PlayerPulse {
                    col,
                    row,
                    time_left: time_left.saturating_sub(elapsed),
                    total,
                }
            }
        },
        AnimPhase::WaitBeforeCpu { time_left } => {
            if time_left == 0 {
                // Pause done: the computer picks a move and starts pulsing
                if state.outcome == GameOutcome::Running {
                    let (col, row) = state.compute_ai_move();
                    AnimPhase::CpuPulse {
                        col,
                        row,
                        time_left: PULSE_NANOS,
                        total: PULSE_NANOS,
                    }
                } else {
                    AnimPhase::Idle
                }
            } else {
                AnimPhase::WaitBeforeCpu { time_left: time_left.saturating_sub(elapsed) }
            }
        },
        AnimPhase::CpuPulse { col, row, time_left, total } => {
            if time_left == 0 {
                // Pulse done: apply the computer's move
                state.make_move(col, row, false);
                AnimPhase::Idle
            } else {
                AnimPhase::CpuPulse { col, row, time_left: time_left.saturating_sub(elapsed), total }
            }
        },
    }
}

} // verus!

//! Restart policy for a fallible long-running unit.
//!
//! A supervisor runs a unit of work, and when the unit fails it sleeps for a
//! backoff delay and runs a fresh unit. The backoff starts at 100 ms and
//! doubles up to a 30 s ceiling. A shutdown signal or a clean completion of
//! the unit ends the supervisor with success. The loop that awaits the unit
//! lives outside the library; it asks [`supervise_step`] what to do after
//! each observation.

use vstd::prelude::*;

verus! {

/// Backoff delay, in milliseconds, used before the first restart.
pub const INITIAL_BACKOFF_MS: u64 = 100;

/// Ceiling, in milliseconds, that the backoff never exceeds.
pub const MAX_BACKOFF_MS: u64 = 30_000;

/// The backoff that follows `current_ms`: doubled, capped at the ceiling.
pub open spec fn spec_next_backoff(current_ms: u64) -> u64 {
    if 2 * current_ms <= MAX_BACKOFF_MS {
        (2 * current_ms) as u64
    } else {
        MAX_BACKOFF_MS
    }
}

/// Double a backoff delay, saturating at [`MAX_BACKOFF_MS`].
pub fn next_backoff(current_ms: u64) -> (r: u64)
    ensures
        r == spec_next_backoff(current_ms),
        r <= MAX_BACKOFF_MS || r == current_ms,
{
    if current_ms <= MAX_BACKOFF_MS / 2 {
        2 * current_ms
    } else {
        MAX_BACKOFF_MS
    }
}

/// What the supervisor observed while awaiting its unit of work.
#[derive(Debug)]
pub enum SuperviseEvent {
    /// The shutdown broadcast fired.
    Shutdown,
    /// The unit of work completed cleanly.
    UnitFinished,
    /// The unit of work failed.
    UnitFailed,
}

/// What the supervisor must do next.
#[derive(Debug, PartialEq, Eq, Structural)]
pub enum SuperviseAction {
    /// Stop with success.
    ExitOk,
    /// Sleep `sleep_ms`, run a fresh unit, and continue with `next_backoff_ms`.
    Restart { sleep_ms: u64, next_backoff_ms: u64 },
}

/// Decide the supervisor's next move after one observation.
///
/// A shutdown signal and a clean unit stop both end the supervisor with
/// success; a failure asks for a restart after the current backoff, with the
/// backoff doubled (up to the ceiling) for the restart after that.
pub fn supervise_step(event: SuperviseEvent, backoff_ms: u64) -> (r: SuperviseAction)
    ensures
        match event {
            SuperviseEvent::Shutdown => r == SuperviseAction::ExitOk,
            SuperviseEvent::UnitFinished => r == SuperviseAction::ExitOk,
            SuperviseEvent::UnitFailed => r == (SuperviseAction::Restart {
                sleep_ms: backoff_ms,
                next_backoff_ms: spec_next_backoff(backoff_ms),
            }),
        },
{
    match event {
        SuperviseEvent::Shutdown => SuperviseAction::ExitOk,
        SuperviseEvent::UnitFinished => SuperviseAction::ExitOk,
        SuperviseEvent::UnitFailed => {
            let next = next_backoff(backoff_ms);
            SuperviseAction::Restart { sleep_ms: backoff_ms, next_backoff_ms: next }
        },
    }
}

} // verus!

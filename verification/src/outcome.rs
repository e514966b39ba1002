//! Structured outcomes handed back to the transport for rendering.

use vstd::prelude::*;

verus! {

/// What one inbound event did to the store, with every fact the transport
/// needs to render a reply. The engine never produces text.
#[derive(Clone, Copy, Debug, PartialEq, Eq, Structural)]
pub enum Outcome {
    /// A fresh session was installed.
    GameStarted { attempts_left: i32 },
    /// The guess was below the target; the countdown was decremented.
    TooLow { remaining: i32 },
    /// The guess was above the target; the countdown was decremented.
    TooHigh { remaining: i32 },
    /// The guess hit the target; a new session with a tightened budget
    /// replaced the finished one.
    Won { next_attempts: i32, threshold: i32 },
    /// No attempt is left: either the losing guess just consumed the last
    /// one, or the session was already spent when the guess arrived.
    Exhausted { target: i32, remaining_before_reset: i32 },
    /// A guess arrived for a key with no session in the store.
    NoActiveSession,
    /// A privileged action was requested by a caller not allowed to.
    NotAuthorized,
    /// The persisted starting budgets were cleared.
    StartAttemptsCleared,
}

/// An inbound game event, already parsed by the transport.
#[derive(Clone, Copy, Debug, PartialEq, Eq, Structural)]
pub enum Event {
    /// Start (or restart) the caller's session.
    StartGame,
    /// Guess a value in the caller's session.
    Guess(i32),
    /// Clear every persisted starting budget (privileged).
    ResetStarts,
}

} // verus!

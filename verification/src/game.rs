//! State of a single game session.

use vstd::prelude::*;

verus! {

/// State of a single game for a user in a chat.
///
/// A session exists in the store exactly while the user has an active game;
/// there is no empty or null game value.
#[derive(Clone, Copy, Debug, PartialEq, Eq, Structural)]
pub struct GameState {
    /// Secret value, fixed for the session's lifetime.
    pub target: i32,
    /// Countdown of guesses, decremented once per guess, never negative.
    pub attempts_left: i32,
    /// The attempts budget this game started with; immutable for the
    /// session and used to compute the next session's budget on a win.
    pub start_attempts: i32,
}

impl GameState {
    /// The countdown stays between zero and the starting budget.
    pub open spec fn wf(&self) -> bool {
        0 <= self.attempts_left <= self.start_attempts
    }
}

} // verus!

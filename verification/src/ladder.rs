//! The difficulty ladder: how the attempts budget of the next game is
//! computed from the budget of the game that was just won.

use vstd::prelude::*;

verus! {

/// The budget after a win: one less than the previous budget, but never
/// below one, so that every game allows at least one guess.
pub open spec fn next_budget(previous: int) -> int {
    vstd::math::max(1int, previous - 1)
}

/// The starting attempts budget of the game after a win. Wins tighten the
/// budget by exactly one no matter how many attempts they consumed, so the
/// two remaining parameters do not influence the result; they are kept so
/// that callers can hand over the full context of the win.
pub fn next_attempts_after_win(
    previous_start_attempts: i32,
    _remaining_after_guess: i32,
    _restart_threshold: i32,
) -> (next: i32)
    ensures
        next == next_budget(previous_start_attempts as int),
        next == vstd::math::max(1int, previous_start_attempts - 1int),
{
    if previous_start_attempts <= 1 {
        1
    } else {
        previous_start_attempts - 1
    }
}

} // verus!

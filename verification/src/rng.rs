//! Drawing the secret target.

use vstd::prelude::*;

verus! {

/// Return a random integer in the inclusive range `[min, max]`.
///
/// Relies on rand's `Uniform::new_inclusive` and `Rng::sample`: a sample of
/// the uniform distribution over `[min, max]` lies in that range, and
/// `new_inclusive` panics when `min > max`, so that case is excluded here.
/// Nothing more is promised: the draw is random.
#[verifier::external_body]
pub fn rand_in_range(min: i32, max: i32) -> (r: i32)
    requires
        min <= max,
    ensures
        min <= r <= max,
{
    let mut rng = rand::thread_rng();
    let distr = rand::distributions::Uniform::new_inclusive(min, max);
    rand::Rng::sample(&mut rng, distr)
}

} // verus!

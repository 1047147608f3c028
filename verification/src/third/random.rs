//! Random draws for initial state buffers.

use vstd::prelude::*;

verus! {

/// Relies on rand's `Rng::gen_range`: the draw from a thread-local generator
/// lies in the half-open range `0..bound`, which must not be empty. Nothing
/// more is promised of a random value.
#[verifier::external_body]
pub fn random_below(bound: u32) -> (r: u32)
    requires
        bound >= 1,
    ensures
        r < bound,
{
    rand::Rng::gen_range(&mut rand::thread_rng(), 0..bound)
}

} // verus!

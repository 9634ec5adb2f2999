//! The random draws of the simulation, taken from the `rand` crate's
//! thread-local generator. Nothing here is proved: each contract states
//! what the crate documents of the call.

use vstd::prelude::*;
use rand::Rng;

verus! {

/// The handle to the thread-local generator of the `rand` crate.
#[verifier::external_type_specification]
#[verifier::external_body]
pub struct ExThreadRng(rand::rngs::ThreadRng);

/// Calls `rand::thread_rng`, which hands out the generator of the
/// current thread. Nothing is claimed of it.
#[verifier::external_body]
pub(crate) fn thread_rng() -> (rng: rand::rngs::ThreadRng) {
    rand::thread_rng()
}

/// Calls `Rng::gen_range` on the half-open range `0..bound`. The crate
/// documents that the value lies in the range, and that an empty range
/// panics: hence the demand that `bound` is positive. Which value comes
/// is left open.
#[verifier::external_body]
pub(crate) fn random_index(rng: &mut rand::rngs::ThreadRng, bound: usize) -> (k: usize)
    requires
        bound > 0,
    ensures
        k < bound,
{
    rng.gen_range(0..bound)
}

/// Calls `Rng::fill` on the booleans, which overwrites each of them with
/// a random one. Only that their number stays is claimed.
#[verifier::external_body]
pub(crate) fn fill_random(rng: &mut rand::rngs::ThreadRng, bits: &mut Vec<bool>)
    ensures
        final(bits)@.len() == old(bits)@.len(),
{
    rng.fill(&mut bits[..])
}

} // verus!

//! The source of random numbers. Nothing in this file is proved: it states
//! what the rest of the library takes from the `rand` crate.

use vstd::prelude::*;

verus! {

/// The handle to the calling thread's generator. Nothing is known of its
/// state.
#[verifier::external_type_specification]
#[verifier::external_body]
pub struct ExThreadRng(rand::rngs::ThreadRng);

/// `rand::thread_rng` hands out the calling thread's generator, which is
/// seeded from the operating system when the thread first asks for it (and
/// panics there if the system gives no seed). Nothing is claimed of the
/// handle.
pub assume_specification[ rand::thread_rng ]() -> (rng: rand::rngs::ThreadRng);

/// Draws a number with `Rng::gen_range` on the range `low..high`. The claim
/// is that the number lies in the range, `low` included and `high` not. An
/// empty range makes the generator panic, so `low` must be below `high`.
/// Which number of the range comes is left open, and so is the state that
/// the generator is left in.
#[verifier::external_body]
pub(crate) fn random_in_range(rng: &mut rand::rngs::ThreadRng, low: usize, high: usize) -> (drawn:
    usize)
    requires
        low < high,
    ensures
        low <= drawn < high,
{
    rand::Rng::gen_range(rng, low..high)
}

} // verus!

//! The source of chance: the thread-local generator of the `rand` crate.

use vstd::prelude::*;
use rand::rngs::ThreadRng;
use rand::Rng;

verus! {

/// `rand::rngs::ThreadRng`, a handle to the generator that each thread owns.
/// Nothing is known of its state.
#[verifier::external_type_specification]
#[verifier::external_body]
pub struct ExThreadRng(ThreadRng);

/// `rand::thread_rng` hands out the calling thread's generator, which the
/// operating system has seeded. Nothing is claimed of the generator.
pub assume_specification[ rand::thread_rng ]() -> (rng: ThreadRng);

/// `Rng::gen_range` on the half-open range `0..bound`: for a range that is not
/// empty it returns a number of that range, uniformly drawn. Which number is
/// not determined, so the contract gives the range alone.
#[verifier::external_body]
pub(crate) fn draw_below(rng: &mut ThreadRng, bound: u16) -> (drawn: u16)
    requires
        bound > 0,
    ensures
        drawn < bound,
{
    rng.gen_range(0..bound)
}

/// Draws `count` numbers below `bound`, one after the other.
pub(crate) fn draw_many(rng: &mut ThreadRng, bound: u16, count: usize) -> (draws: Vec<u16>)
    requires
        bound > 0,
    ensures
        draws@.len() == count,
        forall|i: int| 0 <= i < draws@.len() ==> draws@[i] < bound,
{
    let mut draws: Vec<u16> = Vec::new();
    while draws.len() < count
        invariant
            bound > 0,
            draws@.len() <= count,
            forall|i: int| 0 <= i < draws@.len() ==> draws@[i] < bound,
        decreases count - draws@.len(),
    {
        let drawn: u16 = draw_below(rng, bound);
        draws.push(drawn);
    }
    draws
}

} // verus!

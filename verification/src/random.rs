use rand::rngs::ThreadRng;
use rand::Rng;
use vstd::prelude::*;

verus! {

/// `rand::rngs::ThreadRng`, the handle to the random number generator that
/// the `rand` crate keeps for each thread. Nothing inside it is visible here.
#[verifier::external_type_specification]
#[verifier::external_body]
pub struct ExThreadRng(ThreadRng);

/// `rand::thread_rng` hands out the handle to the generator of the current
/// thread, which the system has seeded. Nothing is claimed of the handle.
pub assume_specification[ rand::thread_rng ]() -> (rng: ThreadRng);

/// `Rng::gen_range` with the bounds 0 and `bound`, on the generator of the
/// current thread: a position drawn evenly from those below `bound`. All
/// that is claimed of the position is that it lies below `bound`, whatever
/// was drawn. The bound is not 0, since `gen_range` panics on an empty range.
#[verifier::external_body]
pub(crate) fn draw_below(rng: &mut ThreadRng, bound: usize) -> (j: usize)
    requires
        bound > 0,
    ensures
        j < bound,
{
    rng.gen_range(0, bound)
}

} // verus!

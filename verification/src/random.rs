//! The random source. What stands here is believed of the `rand` crate, not
//! proved.

use vstd::prelude::*;
use rand::Rng;
use crate::config::Density;

verus! {

/// `rand::rngs::ThreadRng`: a handle to the generator of the running thread.
/// Nothing is known of what is inside.
#[verifier::external_type_specification]
#[verifier::external_body]
pub struct ExThreadRng(rand::rngs::ThreadRng);

/// `rand::thread_rng`: hands out the generator of the running thread, which
/// the system seeds. Nothing is claimed of the generator.
pub assume_specification[ rand::thread_rng ]() -> (rng: rand::rngs::ThreadRng);

/// `rand::Rng::gen_ratio`: one draw that is `true` with the probability
/// `numerator / denominator`. The contract keeps out the ratios on which the
/// call panics, a denominator of zero and a numerator above it, and claims
/// what holds of every draw: with equal numerator and denominator the draw
/// is `true`, with a numerator of zero it is `false`.
#[verifier::external_body]
pub(crate) fn draw(rng: &mut rand::rngs::ThreadRng, density: Density) -> (alive: bool)
    requires
        density.wf(),
    ensures
        density.is_always() ==> alive,
        density.is_never() ==> !alive,
{
    rng.gen_ratio(density.numerator, density.denominator)
}

} // verus!

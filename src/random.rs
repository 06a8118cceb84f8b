use vstd::prelude::*;

use rand::rngs::StdRng;
use rand::Rng;
use rand::RngCore;

verus! {

/// The seedable generator that drives every random choice of the library.
#[verifier::external_type_specification]
#[verifier::external_body]
pub struct ExStdRng(StdRng);

/// Relies on `rand::Rng::gen_range`: a value in `[0, bound)` (it panics on
/// an empty range, hence the bound must be positive).
#[verifier::external_body]
pub(crate) fn draw_below(rng: &mut StdRng, bound: usize) -> (r: usize)
    requires
        bound > 0,
    ensures
        r < bound,
{
    rng.gen_range(0..bound)
}

/// Relies on `rand::RngCore::next_u64`: 64 random bits, any value possible.
#[verifier::external_body]
pub(crate) fn draw_bits(rng: &mut StdRng) -> (r: u64) {
    rng.next_u64()
}

} // verus!

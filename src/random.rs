//! Draws from the match's random number generator.

use vstd::prelude::*;
use rand::Rng;

verus! {

/// rand's seedable standard generator, carried through as an opaque value.
#[verifier::external_type_specification]
#[verifier::external_body]
pub struct ExStdRng(rand::rngs::StdRng);

/// Relies on rand's `Rng::gen_range` over `0..end`: a value in that
/// range (it panics only on an empty range, which `requires` excludes).
#[verifier::external_body]
pub(crate) fn draw_below(rng: &mut rand::rngs::StdRng, end: u32) -> (r: u32)
    requires
        0 < end,
    ensures
        r < end,
{
    rng.gen_range(0..end)
}

} // verus!

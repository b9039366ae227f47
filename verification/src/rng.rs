//! The source of randomness. The framework is handed a seeded generator and
//! draws from it; the same seed gives the same draws.

use vstd::prelude::*;
use rand::rngs::StdRng;
use rand::Rng;

verus! {

/// `rand::rngs::StdRng`, carried through unopened.
#[verifier::external_type_specification]
#[verifier::external_body]
pub struct ExStdRng(rand::rngs::StdRng);

/// `rand::Rng::gen_range` on the range from zero up to, and without,
/// `bound`. The generator returns a number of that range; it panics on an
/// empty range, which the precondition rules out. Nothing else is claimed
/// of the number drawn.
#[verifier::external_body]
pub(crate) fn draw_below(rng: &mut StdRng, bound: u32) -> (r: u32)
    requires
        bound > 0,
    ensures
        r < bound,
{
    rng.gen_range(0..bound)
}

} // verus!

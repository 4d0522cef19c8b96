//! The seeded generator that a run draws from.

use rand::Rng;
use rand_chacha::ChaCha8Rng;
use vstd::prelude::*;

verus! {

/// `rand_chacha::ChaCha8Rng`, carried through the library as an opaque value.
#[verifier::external_type_specification]
#[verifier::external_body]
pub struct ExChaCha8Rng(rand_chacha::ChaCha8Rng);

/// Draws an index below `n` with `rand::Rng::gen_range(0..n)`, which samples
/// the half-open range and panics when it is empty. Nothing is claimed of
/// which index comes back, nor of the generator afterwards.
#[verifier::external_body]
pub(crate) fn draw_index(rng: &mut ChaCha8Rng, n: usize) -> (index: usize)
    requires
        n > 0,
    ensures
        index < n,
{
    rng.gen_range(0..n)
}

} // verus!

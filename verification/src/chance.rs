//! The random source: a seedable generator of the `rand` crate, handed in
//! by the caller, and the two draws the scheduler makes from it.

use vstd::prelude::*;
use rand::rngs::StdRng;
use rand::seq::SliceRandom;
use rand::Rng;
use crate::retention::{FUZZ_MAX, FUZZ_MIN};

verus! {

/// `rand::rngs::StdRng`, the generator that callers seed and hand in. Its
/// state is not modelled.
#[verifier::external_type_specification]
#[verifier::external_body]
pub struct ExStdRng(rand::rngs::StdRng);

/// Calls `rand::Rng::gen_range` on the closed range from `low` to `high`.
///
/// `gen_range` panics on an empty range, which `requires` rules out, and
/// samples a value that lies in the range; nothing else is claimed of it.
#[verifier::external_body]
fn random_between(rng: &mut StdRng, low: u64, high: u64) -> (drawn: u64)
    requires
        low <= high,
    ensures
        low <= drawn <= high,
{
    rng.gen_range(low..=high)
}

/// Calls `rand::seq::SliceRandom::shuffle` on the vector's slice.
///
/// `shuffle` only swaps elements of the slice with one another, so the
/// vector holds the same elements as before, each as often as before.
/// Their order is not claimed.
#[verifier::external_body]
pub(crate) fn shuffle_indices(order: &mut Vec<usize>, rng: &mut StdRng)
    ensures
        final(order)@.to_multiset() == old(order)@.to_multiset(),
{
    order.shuffle(rng);
}

/// Draws the fuzz of one interval: a factor between 0.95 and 1.05, in
/// thousandths.
pub fn draw_fuzz(rng: &mut StdRng) -> (fuzz: u64)
    ensures
        FUZZ_MIN <= fuzz <= FUZZ_MAX,
{
    random_between(rng, FUZZ_MIN, FUZZ_MAX)
}

} // verus!

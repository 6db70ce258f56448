//! The sources of chance, drawn from the thread-local generator of `rand`.

use vstd::prelude::*;
use rand::distributions::{IndependentSample, Weighted, WeightedChoice};
use rand::Rng;

verus! {

/// The sum of a sequence of weights.
pub open spec fn total_weight(weights: Seq<u32>) -> int
    decreases weights.len(),
{
    if weights.len() == 0 {
        0
    } else {
        total_weight(weights.drop_last()) + weights.last()
    }
}

/// Calls `Rng::gen_range` on `rand::thread_rng()`. The generator panics unless
/// `low < high`, and samples from the half-open range: whatever it draws lies
/// in `[low, high)`.
#[verifier::external_body]
pub(crate) fn random_range(low: i32, high: i32) -> (r: i32)
    requires
        low < high,
    ensures
        low <= r < high,
{
    rand::thread_rng().gen_range(low, high)
}

/// Calls `rand::random` for a `bool`. Nothing is promised of the outcome.
#[verifier::external_body]
pub(crate) fn random_bool() -> (b: bool) {
    rand::random()
}

/// Builds a `WeightedChoice` over the positions of `weights` and draws one
/// position with `ind_sample`. `WeightedChoice::new` panics on an empty list,
/// on a total weight of zero and on a total that does not fit in `u32`. The
/// draw picks a weight below the total and returns the first position whose
/// running total exceeds it, so the position is in range and its own weight
/// is not zero.
#[verifier::external_body]
pub(crate) fn weighted_index(weights: &Vec<u32>) -> (index: usize)
    requires
        weights.len() > 0,
        0 < total_weight(weights@) <= u32::MAX,
    ensures
        index < weights.len(),
        weights[index as int] > 0,
{
    let mut items: Vec<Weighted<usize>> = Vec::new();
    for (index, weight) in weights.iter().enumerate() {
        items.push(Weighted { weight: *weight, item: index });
    }
    WeightedChoice::new(&mut items).ind_sample(&mut rand::thread_rng())
}

} // verus!

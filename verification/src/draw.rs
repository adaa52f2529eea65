//! The one source of randomness: a uniform integer draw below a bound,
//! and the weighted tier sampler built on it.

use vstd::prelude::*;
use crate::tier::{tier_from_draw, RewardTier, TOTAL_WEIGHT};

verus! {

/// Relies on rand::Rng::gen_range over the range `0..n`: it panics only on
/// an empty range, which `n >= 1` rules out, and returns a uniformly
/// distributed value of the range. Only membership in `[0, n)` is stated;
/// two calls on the same bound may differ.
#[verifier::external_body]
pub(crate) fn draw_below(n: u64) -> (r: u64)
    requires
        1 <= n,
    ensures
        r < n,
{
    rand::Rng::gen_range(&mut rand::thread_rng(), 0..n)
}

/// Draws one reward tier by the weighted categorical scheme: a uniform
/// integer in `[0, TOTAL_WEIGHT)` mapped through the cumulative weights.
/// The result is random; `lemma_tier_draw_interval` relates each tier's
/// share of the draws to its weight.
pub fn sample() -> RewardTier {
    let d = draw_below(TOTAL_WEIGHT);
    tier_from_draw(d)
}

/// Draws the winning row index, uniform over `{0, 1, 2}`.
pub fn draw_row() -> (r: u8)
    ensures
        r < 3,
{
    let d = draw_below(3);
    d as u8
}

} // verus!

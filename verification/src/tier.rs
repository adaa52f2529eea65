//! The fixed set of reward tiers, their draw weights and currency payouts,
//! and the weighted categorical draw that picks a tier from a uniform
//! integer in `[0, TOTAL_WEIGHT)`.

use vstd::prelude::*;
use vstd::set_lib::{lemma_int_range, set_int_range};

verus! {

/// One of the eight fixed outcomes of a pull, ordered from most to least
/// frequent.
#[derive(Clone, Copy, Debug, PartialEq, Eq, Structural)]
pub enum RewardTier {
    VeryCommon,
    Common,
    Uncommon,
    Rare,
    VeryRare,
    Epic,
    Legendary,
    Jackpot,
}

/// Sum of all tier weights; a draw is a uniform integer below this.
pub const TOTAL_WEIGHT: u64 = 421;

impl RewardTier {
    /// Relative draw weight of this tier.
    pub open spec fn spec_weight(self) -> u64 {
        match self {
            RewardTier::VeryCommon => 100,
            RewardTier::Common => 95,
            RewardTier::Uncommon => 75,
            RewardTier::Rare => 60,
            RewardTier::VeryRare => 50,
            RewardTier::Epic => 30,
            RewardTier::Legendary => 10,
            RewardTier::Jackpot => 1,
        }
    }

    /// Currency units credited when this tier is drawn as the winning one.
    pub open spec fn spec_payout(self) -> u64 {
        match self {
            RewardTier::VeryCommon => 0,
            RewardTier::Common => 25,
            RewardTier::Uncommon => 100,
            RewardTier::Rare => 250,
            RewardTier::VeryRare => 500,
            RewardTier::Epic => 1000,
            RewardTier::Legendary => 2500,
            RewardTier::Jackpot => 5000,
        }
    }

    /// Sum of the weights of all tiers that precede this one in the declared
    /// order; the draws in `[spec_cum(t), spec_cum(t) + spec_weight(t))` are
    /// exactly the ones that select tier `t`.
    pub open spec fn spec_cum(self) -> u64 {
        match self {
            RewardTier::VeryCommon => 0,
            RewardTier::Common => 100,
            RewardTier::Uncommon => 195,
            RewardTier::Rare => 270,
            RewardTier::VeryRare => 330,
            RewardTier::Epic => 380,
            RewardTier::Legendary => 410,
            RewardTier::Jackpot => 420,
        }
    }

    /// Position of this tier in the declared order.
    pub open spec fn spec_idx(self) -> int {
        match self {
            RewardTier::VeryCommon => 0,
            RewardTier::Common => 1,
            RewardTier::Uncommon => 2,
            RewardTier::Rare => 3,
            RewardTier::VeryRare => 4,
            RewardTier::Epic => 5,
            RewardTier::Legendary => 6,
            RewardTier::Jackpot => 7,
        }
    }

    pub fn weight(self) -> (w: u64)
        ensures
            w == self.spec_weight(),
    {
        match self {
            RewardTier::VeryCommon => 100,
            RewardTier::Common => 95,
            RewardTier::Uncommon => 75,
            RewardTier::Rare => 60,
            RewardTier::VeryRare => 50,
            RewardTier::Epic => 30,
            RewardTier::Legendary => 10,
            RewardTier::Jackpot => 1,
        }
    }

    pub fn payout(self) -> (p: u64)
        ensures
            p == self.spec_payout(),
    {
        match self {
            RewardTier::VeryCommon => 0,
            RewardTier::Common => 25,
            RewardTier::Uncommon => 100,
            RewardTier::Rare => 250,
            RewardTier::VeryRare => 500,
            RewardTier::Epic => 1000,
            RewardTier::Legendary => 2500,
            RewardTier::Jackpot => 5000,
        }
    }

    /// Position of this tier in the declared order, for indexing the symbol
    /// tables.
    pub fn index(self) -> (i: usize)
        ensures
            i == self.spec_idx(),
            i < 8,
    {
        match self {
            RewardTier::VeryCommon => 0,
            RewardTier::Common => 1,
            RewardTier::Uncommon => 2,
            RewardTier::Rare => 3,
            RewardTier::VeryRare => 4,
            RewardTier::Epic => 5,
            RewardTier::Legendary => 6,
            RewardTier::Jackpot => 7,
        }
    }
}

/// The tier selected by a uniform draw `d` in `[0, TOTAL_WEIGHT)`: walking
/// the tiers in declared order and accumulating weights, the first tier
/// whose cumulative weight exceeds `d`.
pub open spec fn spec_tier_from_draw(d: int) -> RewardTier {
    if d < 100 {
        RewardTier::VeryCommon
    } else if d < 195 {
        RewardTier::Common
    } else if d < 270 {
        RewardTier::Uncommon
    } else if d < 330 {
        RewardTier::Rare
    } else if d < 380 {
        RewardTier::VeryRare
    } else if d < 410 {
        RewardTier::Epic
    } else if d < 420 {
        RewardTier::Legendary
    } else {
        RewardTier::Jackpot
    }
}

/// Maps a uniform draw to its reward tier.
pub fn tier_from_draw(d: u64) -> (t: RewardTier)
    requires
        d < TOTAL_WEIGHT,
    ensures
        t == spec_tier_from_draw(d as int),
{
    if d < 100 {
        RewardTier::VeryCommon
    } else if d < 195 {
        RewardTier::Common
    } else if d < 270 {
        RewardTier::Uncommon
    } else if d < 330 {
        RewardTier::Rare
    } else if d < 380 {
        RewardTier::VeryRare
    } else if d < 410 {
        RewardTier::Epic
    } else if d < 420 {
        RewardTier::Legendary
    } else {
        RewardTier::Jackpot
    }
}

/// Each tier's share of the draw space is a set of exactly its weight's
/// size: under a uniform draw, tiers are selected with probability
/// proportional to their declared weights.
pub proof fn lemma_tier_draw_share(t: RewardTier)
    ensures
        Set::new(|d: int| 0 <= d < TOTAL_WEIGHT && spec_tier_from_draw(d) == t).finite(),
        Set::new(|d: int| 0 <= d < TOTAL_WEIGHT && spec_tier_from_draw(d) == t).len()
            == t.spec_weight(),
{
    let share = Set::new(|d: int| 0 <= d < TOTAL_WEIGHT && spec_tier_from_draw(d) == t);
    let lo = t.spec_cum() as int;
    let hi = lo + t.spec_weight();
    lemma_tier_draw_interval(t);
    lemma_int_range(lo, hi);
    assert(share =~= set_int_range(lo, hi));
}

/// The draws that select tier `t` are exactly the interval of length
/// `spec_weight(t)` starting at `spec_cum(t)`: under a uniform draw, each
/// tier is selected with probability proportional to its declared weight.
pub proof fn lemma_tier_draw_interval(t: RewardTier)
    ensures
        forall|d: int|
            0 <= d < TOTAL_WEIGHT ==> ((spec_tier_from_draw(d) == t) <==> (t.spec_cum() <= d
                < t.spec_cum() + t.spec_weight())),
{
}

} // verus!

use vstd::prelude::*;

use crate::common::mass::{lemma_scale_round_le, scale_round, Gram};
use crate::common::percent::Percent;
use vstd::arithmetic::div_mod::lemma_div_pos_is_pos;
use vstd::arithmetic::mul::{lemma_mul_inequality, lemma_mul_nonnegative};

verus! {

/// Percent of starter flour taken from the total flour.
pub type StarterPercentage = Percent<1, 30, 0>;

/// A starter's hydration: water as a percent of flour.
pub type StarterHydrationPercentage = Percent<50, 300, 0>;

/// How much flour a contribution weight `w` at hydration `h` (in percent)
/// splits into: one part flour for `h/100` parts water, so the flour is
/// `w * 100 / (100 + h)`, rounded to a hundredth of a gram.
pub open spec fn derived_flour(w: int, h: int) -> int {
    scale_round(w, 100, 100 + h)
}

/// The water side of the same split: `w * h / (100 + h)`, rounded to a
/// hundredth of a gram.
pub open spec fn derived_water(w: int, h: int) -> int {
    scale_round(w, h, 100 + h)
}

/// Both sides of the split stay within the contribution weight.
pub proof fn lemma_derived_bounds(w: int, h: int)
    requires
        0 <= w,
        0 <= h,
    ensures
        0 <= derived_flour(w, h) <= w,
        0 <= derived_water(w, h) <= w,
{
    lemma_scale_round_le(w, 100, 100 + h);
    lemma_scale_round_le(w, h, 100 + h);
    lemma_mul_nonnegative(w, 100);
    lemma_mul_nonnegative(w, h);
    lemma_div_pos_is_pos(w * 100 + (100 + h) / 2, 100 + h);
    lemma_div_pos_is_pos(w * h + (100 + h) / 2, 100 + h);
}

/// A sourdough starter held as its derived flour and water content.
///
/// The flour and water are tracked; the bacteria take care of themselves.
/// The value is immutable: [`Starter::reset`] recomputes a new starter for
/// a changed weight or hydration rather than mutating this one.
#[derive(Debug, Clone, Copy, PartialEq, Eq, Structural)]
pub struct Starter {
    pub flour: Gram,
    pub water: Gram,
}

impl Starter {
    /// Derives the flour/water split of a starter of total weight `weight`
    /// at the given hydration.
    pub fn set(weight: Gram, hydration: StarterHydrationPercentage) -> (r: Starter)
        requires
            hydration.valid(),
        ensures
            r.flour@ == derived_flour(weight@, hydration.0 as int),
            r.water@ == derived_water(weight@, hydration.0 as int),
    {
        proof {
            lemma_derived_bounds(weight@, hydration.0 as int);
        }
        let den: u64 = 100 + (hydration.0 as u64);
        let flour = weight.times_frac(100, den);
        let water = weight.times_frac(hydration.0 as u64, den);
        Starter { flour, water }
    }

    /// Creates a starter that takes `percent_starter` of `total_weight` as
    /// its own weight, split by the given hydration.
    pub fn create(
        total_weight: Gram,
        hydration: StarterHydrationPercentage,
        percent_starter: StarterPercentage,
    ) -> (r: Starter)
        requires
            hydration.valid(),
            percent_starter.valid(),
        ensures
            r.flour@ == derived_flour(
                scale_round(total_weight@, percent_starter.0 as int, 100),
                hydration.0 as int,
            ),
            r.water@ == derived_water(
                scale_round(total_weight@, percent_starter.0 as int, 100),
                hydration.0 as int,
            ),
    {
        proof {
            lemma_scale_round_le(total_weight@, percent_starter.0 as int, 100);
            assert(crate::common::percent::pow10(0) == 1);
        }
        let starter_weight = total_weight.times_ratio(percent_starter);
        Self::set(starter_weight, hydration)
    }

    /// The hydration this starter actually has, recomputed as water over
    /// flour so it stays consistent after any transformation.
    pub fn get_hydration(&self) -> (r: StarterHydrationPercentage)
        requires
            self.flour@ > 0,
            50 <= self.water@ * 100 / self.flour@ <= 300,
        ensures
            r.0 as int == self.water@ * 100 / self.flour@,
            r.valid(),
    {
        proof {
            lemma_mul_inequality(self.water@, u64::MAX as int, 100);
            lemma_div_pos_is_pos(self.water@ * 100, self.flour@);
        }
        let q: u128 = ((self.water.0 as u128) * 100) / (self.flour.0 as u128);
        Percent(q as usize)
    }

    pub fn get_flour_weight(&self) -> (r: Gram)
        ensures
            r == self.flour,
    {
        self.flour
    }

    pub fn get_water_weight(&self) -> (r: Gram)
        ensures
            r == self.water,
    {
        self.water
    }

    pub fn get_total_weight(&self) -> (r: Gram)
        requires
            self.flour@ + self.water@ <= u64::MAX,
        ensures
            r@ == self.flour@ + self.water@,
    {
        self.flour.plus(self.water)
    }

    /// Recomputes the starter for a changed weight or hydration, returning
    /// a new value rather than mutating this one.
    pub fn reset(&self, weight: Gram, hydration: StarterHydrationPercentage) -> (r: Starter)
        requires
            hydration.valid(),
        ensures
            r.flour@ == derived_flour(weight@, hydration.0 as int),
            r.water@ == derived_water(weight@, hydration.0 as int),
    {
        Self::set(weight, hydration)
    }
}

} // verus!

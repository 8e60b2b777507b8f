use vstd::prelude::*;

use crate::common::mass::Gram;
use crate::common::percent::Percent;
use vstd::arithmetic::div_mod::lemma_div_pos_is_pos;
use vstd::arithmetic::mul::lemma_mul_inequality;

verus! {

/// A tangzhong's hydration is fixed at 200%: two parts water to one part
/// flour.
pub type TangzhongHydrationPercentage = Percent<200, 200, 0>;

/// A tangzhong (water roux) held as its derived flour and water content: a
/// paste of flour cooked in water to gelatinize the starches; the captured
/// water improves shelf life and texture.
#[derive(Debug, Clone, Copy, PartialEq, Eq, Structural)]
pub struct Tangzhong {
    pub flour: Gram,
    pub water: Gram,
}

impl Tangzhong {
    /// Derives the water content for the given flour weight at the given
    /// hydration: the water is `flour * hydration / 100`, exactly twice the
    /// flour at the fixed 200% hydration.
    pub fn set(flour: Gram, hydration: TangzhongHydrationPercentage) -> (r: Tangzhong)
        requires
            hydration.valid(),
            flour@ * 2 <= u64::MAX,
        ensures
            r.flour == flour,
            r.water@ == 2 * flour@,
    {
        proof {
            assert(crate::common::percent::pow10(0) == 1);
            assert(flour@ * 200 == 100 * (2 * flour@)) by (nonlinear_arith);
            vstd::arithmetic::div_mod::lemma_div_multiples_vanish_fancy(2 * flour@, 50, 100);
        }
        let water = flour.times_ratio(hydration);
        Tangzhong { flour, water }
    }

    /// Creates a tangzhong for the given flour weight at the fixed 200%
    /// hydration.
    pub fn new(flour_weight: Gram) -> (r: Tangzhong)
        requires
            flour_weight@ * 2 <= u64::MAX,
        ensures
            r.flour == flour_weight,
            r.water@ == 2 * flour_weight@,
    {
        Tangzhong::set(flour_weight, Percent(200))
    }

    /// The hydration this tangzhong actually has, recomputed as water over
    /// flour.
    pub fn get_hydration(&self) -> (r: TangzhongHydrationPercentage)
        requires
            self.flour@ > 0,
            self.water@ * 100 / self.flour@ == 200,
        ensures
            r.0 == 200,
            r.valid(),
    {
        proof {
            lemma_mul_inequality(self.water@, u64::MAX as int, 100);
            lemma_div_pos_is_pos(self.water@ * 100, self.flour@);
        }
        let q: u128 = ((self.water.0 as u128) * 100) / (self.flour.0 as u128);
        Percent(q as usize)
    }

    pub fn get_flour_weight(&self) -> (r: Gram)
        ensures
            r == self.flour,
    {
        self.flour
    }

    pub fn get_water_weight(&self) -> (r: Gram)
        ensures
            r == self.water,
    {
        self.water
    }

    pub fn get_total_weight(&self) -> (r: Gram)
        requires
            self.flour@ + self.water@ <= u64::MAX,
        ensures
            r@ == self.flour@ + self.water@,
    {
        self.flour.plus(self.water)
    }
}

} // verus!

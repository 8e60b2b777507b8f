use vstd::prelude::*;

use crate::common::mass::{scale_round, Gram};
use crate::common::percent::Percent;
use crate::ingredient::starter::{derived_flour, derived_water, lemma_derived_bounds};
use vstd::arithmetic::div_mod::lemma_div_pos_is_pos;
use vstd::arithmetic::mul::lemma_mul_inequality;

verus! {

/// A poolish's hydration: water as a percent of flour.
pub type PoolishHydrationPercentage = Percent<50, 300, 0>;

/// A poolish preferment used in bread and pizza making, held as its derived
/// flour, water and yeast content.
///
/// Usually it has 100% hydration: one part flour to one part water, plus a
/// pinch of yeast at 1% of the water.
#[derive(Debug, Clone, Copy, PartialEq, Eq, Structural)]
pub struct Poolish {
    pub flour: Gram,
    pub water: Gram,
    pub yeast: Gram,
}

impl Poolish {
    /// Derives the flour/water split of a poolish of weight `weight` at the
    /// given hydration, with yeast at 1% of the water.
    pub fn set(weight: Gram, hydration: PoolishHydrationPercentage) -> (r: Poolish)
        requires
            hydration.valid(),
        ensures
            r.flour@ == derived_flour(weight@, hydration.0 as int),
            r.water@ == derived_water(weight@, hydration.0 as int),
            r.yeast@ == scale_round(derived_water(weight@, hydration.0 as int), 1, 100),
    {
        proof {
            lemma_derived_bounds(weight@, hydration.0 as int);
        }
        let den: u64 = 100 + (hydration.0 as u64);
        let flour = weight.times_frac(100, den);
        let water = weight.times_frac(hydration.0 as u64, den);
        let yeast = water.div_scalar(100);
        Poolish { flour, water, yeast }
    }

    /// Creates a poolish of the given weight at the default one-to-one
    /// (100% hydration) flour/water ratio.
    pub fn new(weight: Gram) -> (r: Poolish)
        ensures
            r.flour@ == derived_flour(weight@, 100),
            r.water@ == derived_water(weight@, 100),
            r.yeast@ == scale_round(derived_water(weight@, 100), 1, 100),
    {
        Poolish::set(weight, Percent(100))
    }

    /// Recomputes the poolish, keeping its flour-and-water weight but
    /// changing the hydration.
    pub fn with_hydration(self, hydration: PoolishHydrationPercentage) -> (r: Poolish)
        requires
            hydration.valid(),
            self.flour@ + self.water@ <= u64::MAX,
        ensures
            r.flour@ == derived_flour(self.flour@ + self.water@, hydration.0 as int),
            r.water@ == derived_water(self.flour@ + self.water@, hydration.0 as int),
            r.yeast@ == scale_round(
                derived_water(self.flour@ + self.water@, hydration.0 as int),
                1,
                100,
            ),
    {
        Poolish::set(self.flour.plus(self.water), hydration)
    }

    /// The hydration this poolish actually has, recomputed as water over
    /// flour so it stays consistent after any transformation.
    pub fn get_hydration(&self) -> (r: PoolishHydrationPercentage)
        requires
            self.flour@ > 0,
            50 <= self.water@ * 100 / self.flour@ <= 300,
        ensures
            r.0 as int == self.water@ * 100 / self.flour@,
            r.valid(),
    {
        proof {
            lemma_mul_inequality(self.water@, u64::MAX as int, 100);
            lemma_div_pos_is_pos(self.water@ * 100, self.flour@);
        }
        let q: u128 = ((self.water.0 as u128) * 100) / (self.flour.0 as u128);
        Percent(q as usize)
    }

    pub fn get_flour_weight(&self) -> (r: Gram)
        ensures
            r == self.flour,
    {
        self.flour
    }

    pub fn get_water_weight(&self) -> (r: Gram)
        ensures
            r == self.water,
    {
        self.water
    }

    pub fn get_yeast_weight(&self) -> (r: Gram)
        ensures
            r == self.yeast,
    {
        self.yeast
    }

    pub fn get_total_weight(&self) -> (r: Gram)
        requires
            self.flour@ + self.water@ + self.yeast@ <= u64::MAX,
        ensures
            r@ == self.flour@ + self.water@ + self.yeast@,
    {
        self.flour.plus(self.water).plus(self.yeast)
    }
}

} // verus!

use vstd::prelude::*;

use crate::common::mass::{scale_round, Gram};
use crate::common::percent::{pow10, Percent};
use vstd::arithmetic::div_mod::{lemma_div_pos_is_pos, lemma_fundamental_div_mod};

verus! {

/// An ingredient that is neither flour nor water (salt, seeds, sugar and
/// the like), declared as a percentage of the total flour mass.
#[derive(Debug, Clone)]
pub struct Enrichment<const MIN: usize, const MAX: usize, const DECIMALS: usize> {
    pub name: String,
    pub total_mass: Gram,
    pub ratio: Percent<MIN, MAX, DECIMALS>,
}

impl<const MIN: usize, const MAX: usize, const DECIMALS: usize> Enrichment<MIN, MAX, DECIMALS> {
    /// The mass this enrichment contributes, rounded to a whole gram.
    pub open spec fn other_spec(self) -> int {
        scale_round(
            scale_round(self.total_mass@, self.ratio.0 as int, 100 * pow10(DECIMALS as nat) as int),
            1,
            100,
        ) * 100
    }

    /// The machine bounds under which the contribution can be computed.
    pub open spec fn wf(self) -> bool {
        &&& pow10(DECIMALS as nat) <= usize::MAX
        &&& 100 * pow10(DECIMALS as nat) <= u64::MAX
        &&& scale_round(self.total_mass@, self.ratio.0 as int, 100 * pow10(DECIMALS as nat) as int)
            + 100 <= u64::MAX
    }

    pub fn new(name: String, total_mass: &Gram, ratio: Percent<MIN, MAX, DECIMALS>) -> (r: Self)
        ensures
            r.name == name,
            r.total_mass == *total_mass,
            r.ratio == ratio,
    {
        Enrichment { name, total_mass: *total_mass, ratio }
    }

    /// Declares the enrichment by mass instead: the ratio is derived as the
    /// given mass's percentage of the total, truncated to a whole percent.
    pub fn new_by_mass(name: String, total_mass: &Gram, mass: Gram) -> (r: Self)
        requires
            total_mass@ > 0,
            MIN as int <= mass@ * 100 / total_mass@ <= MAX as int,
            pow10(DECIMALS as nat) <= usize::MAX,
            (MAX as nat) * pow10(DECIMALS as nat) <= usize::MAX,
        ensures
            r.name == name,
            r.total_mass == *total_mass,
            r.ratio.0 as nat == ((mass@ * 100 / total_mass@) as nat) * pow10(DECIMALS as nat),
            r.ratio.valid(),
    {
        proof {
            vstd::arithmetic::mul::lemma_mul_inequality(mass@, u64::MAX as int, 100);
            lemma_div_pos_is_pos(mass@ * 100, total_mass@);
        }
        let q: u128 = ((mass.0 as u128) * 100) / (total_mass.0 as u128);
        let ratio = Percent::<MIN, MAX, DECIMALS>::from_scalar(q as usize);
        Enrichment { name, total_mass: *total_mass, ratio }
    }

    /// The contributed mass is nonnegative and fits the mass representation.
    pub proof fn lemma_other_bound(self)
        requires
            self.wf(),
        ensures
            0 <= self.other_spec() <= u64::MAX,
    {
        let den = 100 * pow10(DECIMALS as nat) as int;
        let v = scale_round(self.total_mass@, self.ratio.0 as int, den);
        vstd::arithmetic::mul::lemma_mul_nonnegative(self.total_mass@, self.ratio.0 as int);
        crate::common::percent::lemma_pow10_increases(0, DECIMALS as nat);
        lemma_div_pos_is_pos(self.total_mass@ * self.ratio.0 + den / 2, den);
        lemma_div_pos_is_pos(v + 50, 100);
        lemma_fundamental_div_mod(v + 50, 100);
        vstd::arithmetic::div_mod::lemma_mod_bound(v + 50, 100);
        vstd::arithmetic::mul::lemma_mul_is_commutative((v + 50) / 100, 100);
    }

    /// The contributed mass: the ratio applied to the total flour mass,
    /// rounded to a whole gram.
    pub fn other(&self) -> (r: Gram)
        requires
            self.wf(),
        ensures
            r@ == self.other_spec(),
    {
        let v = self.total_mass.times_ratio(self.ratio);
        let whole = v.div_scalar(100);
        proof {
            lemma_fundamental_div_mod(v@ + 50, 100);
            vstd::arithmetic::div_mod::lemma_mod_bound(v@ + 50, 100);
            lemma_div_pos_is_pos(v@ + 50, 100);
        }
        whole.times_scalar(100)
    }
}

} // verus!

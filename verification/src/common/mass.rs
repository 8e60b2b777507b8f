use vstd::prelude::*;

use crate::common::percent::{pow10, pow10_exec, lemma_pow10_increases, Percent};
use crate::error::Error;
use vstd::arithmetic::div_mod::{
    lemma_div_is_ordered, lemma_div_multiples_vanish_fancy, lemma_fundamental_div_mod,
};
use vstd::arithmetic::mul::{
    lemma_mul_inequality, lemma_mul_is_associative, lemma_mul_is_commutative,
};

verus! {

/// Result of dividing mass by mass: a wide-open percent ratio
/// (ratios above 100% are meaningful) with no fraction digits.
pub type Ratio = Percent<0, 10_000_000, 0>;

/// A unit of mass, the basis of all ingredient measurements.
///
/// The value counts hundredths of a gram, so a `Gram` is a fixed-point
/// decimal with two fraction digits and is never negative.
#[derive(Debug, Clone, Copy, PartialEq, Eq, Structural, PartialOrd, Ord, Hash)]
pub struct Gram(pub u64);

impl View for Gram {
    type V = int;

    /// A mass is abstractly its count of hundredths of a gram.
    open spec fn view(&self) -> int {
        self.0 as int
    }
}

/// `v * num / den`, rounded to the nearest integer (half away from zero).
pub open spec fn scale_round(v: int, num: int, den: int) -> int
    recommends
        den > 0,
{
    (v * num + den / 2) / den
}

/// Scaling by `num/den <= 1` cannot increase a nonnegative value.
pub proof fn lemma_scale_round_le(v: int, num: int, den: int)
    requires
        0 <= v,
        0 <= num <= den,
        0 < den,
    ensures
        scale_round(v, num, den) <= v,
{
    lemma_mul_inequality(num, den, v);
    lemma_mul_is_commutative(num, v);
    lemma_mul_is_commutative(den, v);
    lemma_div_is_ordered(v * num + den / 2, v * den + den / 2, den);
    lemma_mul_is_commutative(v, den);
    lemma_div_multiples_vanish_fancy(v, den / 2, den);
}

/// When `den` divides `v`, scaling involves no rounding at all:
/// the result is exactly `(v / den) * num`.
pub proof fn lemma_scale_round_exact(v: int, num: int, den: int)
    requires
        0 <= v,
        0 <= num,
        0 < den,
        v % den == 0,
    ensures
        scale_round(v, num, den) == (v / den) * num,
{
    let k = v / den;
    lemma_fundamental_div_mod(v, den);
    assert(v == den * k);
    assert(v * num == (den * k) * num);
    lemma_mul_is_associative(den, k, num);
    assert(v * num == den * (k * num));
    lemma_div_multiples_vanish_fancy(k * num, den / 2, den);
    assert((den * (k * num) + den / 2) / den == k * num);
    vstd::arithmetic::mul::lemma_mul_nonnegative(k, num);
}

/// `v * num / den` rounded to nearest, computed without overflow through
/// 128-bit intermediates.
fn mul_div_round(v: u64, num: u64, den: u64) -> (r: u64)
    requires
        den > 0,
        scale_round(v as int, num as int, den as int) <= u64::MAX,
    ensures
        r as int == scale_round(v as int, num as int, den as int),
{
    proof {
        lemma_mul_inequality(v as int, u64::MAX as int, num as int);
        lemma_mul_inequality(num as int, u64::MAX as int, u64::MAX as int);
        lemma_mul_is_commutative(u64::MAX as int, num as int);
    }
    let p: u128 = (v as u128) * (num as u128);
    let q: u128 = (p + ((den / 2) as u128)) / (den as u128);
    q as u64
}

impl Gram {
    /// The zero mass.
    pub fn zero() -> (r: Gram)
        ensures
            r@ == 0,
    {
        Gram(0)
    }

    /// A mass given directly in hundredths of a gram.
    pub fn from_centigrams(cg: u64) -> (r: Gram)
        ensures
            r@ == cg,
    {
        Gram(cg)
    }

    /// Mass addition.
    pub fn plus(self, other: Gram) -> (r: Gram)
        requires
            self@ + other@ <= u64::MAX,
        ensures
            r@ == self@ + other@,
    {
        Gram(self.0 + other.0)
    }

    /// Mass subtraction; fails with a typed error rather than ever
    /// producing a negative mass.
    pub fn minus(self, other: Gram) -> (r: Result<Gram, Error>)
        ensures
            r is Ok <==> other@ <= self@,
            r matches Ok(g) ==> g@ == self@ - other@,
            r matches Err(e) ==> e == Error::NegativeMass(self, other),
    {
        if other.0 <= self.0 {
            Ok(Gram(self.0 - other.0))
        } else {
            Err(Error::NegativeMass(self, other))
        }
    }

    /// Mass subtraction for callers that have already shown the result
    /// cannot go negative.
    pub fn minus_exact(self, other: Gram) -> (r: Gram)
        requires
            other@ <= self@,
        ensures
            r@ == self@ - other@,
    {
        Gram(self.0 - other.0)
    }

    /// Scaling by another mass value used as a plain decimal factor,
    /// rounded to a hundredth of a gram.
    pub fn times(self, other: Gram) -> (r: Gram)
        requires
            scale_round(self@, other@, 100) <= u64::MAX,
        ensures
            r@ == scale_round(self@, other@, 100),
    {
        Gram(mul_div_round(self.0, other.0, 100))
    }

    /// Scaling by the rational factor `num / den`, rounded to a hundredth
    /// of a gram.
    pub fn times_frac(self, num: u64, den: u64) -> (r: Gram)
        requires
            den > 0,
            scale_round(self@, num as int, den as int) <= u64::MAX,
        ensures
            r@ == scale_round(self@, num as int, den as int),
    {
        Gram(mul_div_round(self.0, num, den))
    }

    /// Scaling by a whole-number factor.
    pub fn times_scalar(self, n: u64) -> (r: Gram)
        requires
            self@ * n <= u64::MAX,
        ensures
            r@ == self@ * n,
    {
        Gram(self.0 * n)
    }

    /// Scaling by the true fractional value of a percentage
    /// (80% multiplies by 0.8), rounded to a hundredth of a gram.
    pub fn times_ratio<const MIN: usize, const MAX: usize, const DECIMALS: usize>(
        self,
        ratio: Percent<MIN, MAX, DECIMALS>,
    ) -> (r: Gram)
        requires
            pow10(DECIMALS as nat) <= usize::MAX,
            100 * pow10(DECIMALS as nat) <= u64::MAX,
            scale_round(self@, ratio.0 as int, 100 * pow10(DECIMALS as nat) as int) <= u64::MAX,
        ensures
            r@ == scale_round(self@, ratio.0 as int, 100 * pow10(DECIMALS as nat) as int),
    {
        let mult = pow10_exec(DECIMALS);
        proof {
            lemma_pow10_increases(0, DECIMALS as nat);
        }
        let den: u64 = 100u64 * (mult as u64);
        Gram(mul_div_round(self.0, ratio.0 as u64, den))
    }

    /// Division by the true fractional value of a percentage
    /// (dividing by 80% divides by 0.8), rounded to a hundredth of a gram.
    pub fn div_ratio<const MIN: usize, const MAX: usize, const DECIMALS: usize>(
        self,
        ratio: Percent<MIN, MAX, DECIMALS>,
    ) -> (r: Gram)
        requires
            ratio.0 > 0,
            pow10(DECIMALS as nat) <= usize::MAX,
            100 * pow10(DECIMALS as nat) <= u64::MAX,
            scale_round(self@, 100 * pow10(DECIMALS as nat) as int, ratio.0 as int) <= u64::MAX,
        ensures
            r@ == scale_round(self@, 100 * pow10(DECIMALS as nat) as int, ratio.0 as int),
    {
        let mult = pow10_exec(DECIMALS);
        proof {
            lemma_pow10_increases(0, DECIMALS as nat);
        }
        let num: u64 = 100u64 * (mult as u64);
        Gram(mul_div_round(self.0, num, ratio.0 as u64))
    }

    /// Division by a whole-number divisor, rounded to a hundredth of a gram.
    pub fn div_scalar(self, n: u64) -> (r: Gram)
        requires
            n > 0,
        ensures
            r@ == scale_round(self@, 1, n as int),
    {
        proof {
            lemma_scale_round_le(self@, 1, n as int);
        }
        Gram(mul_div_round(self.0, 1, n))
    }

    /// Division by another mass value used as a plain decimal divisor,
    /// rounded to a hundredth of a gram.
    pub fn div_by(self, other: Gram) -> (r: Gram)
        requires
            other@ > 0,
            scale_round(self@, 100, other@) <= u64::MAX,
        ensures
            r@ == scale_round(self@, 100, other@),
    {
        Gram(mul_div_round(self.0, 100, other.0))
    }

    /// This mass as a percentage of `other`, truncated to a whole percent.
    pub fn as_ratio_of(self, other: &Gram) -> (r: Ratio)
        requires
            other@ > 0,
            self@ * 100 / other@ <= 10_000_000,
        ensures
            r.0 as int == self@ * 100 / other@,
            r.valid(),
    {
        proof {
            lemma_mul_inequality(self@, u64::MAX as int, 100);
            vstd::arithmetic::div_mod::lemma_div_pos_is_pos(self@ * 100, other@);
        }
        let q: u128 = ((self.0 as u128) * 100) / (other.0 as u128);
        Percent(q as usize)
    }
}

impl From<i32> for Gram {
    /// A whole number of grams; a negative source value cannot be
    /// represented as a mass and resolves to the zero mass.
    fn from(value: i32) -> (r: Gram) {
        if value < 0 {
            Gram(0)
        } else {
            Gram((value as u64) * 100)
        }
    }
}

impl vstd::std_specs::convert::FromSpecImpl<i32> for Gram {
    open spec fn obeys_from_spec() -> bool {
        true
    }

    open spec fn from_spec(value: i32) -> Gram {
        if value < 0 {
            Gram(0)
        } else {
            Gram((value * 100) as u64)
        }
    }
}

impl From<usize> for Gram {
    /// A whole number of grams; a source value too large to be
    /// represented resolves to the zero mass.
    fn from(value: usize) -> (r: Gram) {
        if (value as u64) <= u64::MAX / 100 {
            Gram((value as u64) * 100)
        } else {
            Gram(0)
        }
    }
}

impl vstd::std_specs::convert::FromSpecImpl<usize> for Gram {
    open spec fn obeys_from_spec() -> bool {
        true
    }

    open spec fn from_spec(value: usize) -> Gram {
        if value * 100 <= u64::MAX {
            Gram((value * 100) as u64)
        } else {
            Gram(0)
        }
    }
}

} // verus!

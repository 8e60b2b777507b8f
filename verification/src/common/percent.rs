use vstd::prelude::*;

use crate::error::Error;

verus! {

/// `10^e`, the scaling factor that a decimal-digit count denotes.
pub open spec fn pow10(e: nat) -> nat
    decreases e,
{
    if e == 0 {
        1
    } else {
        10 * pow10((e - 1) as nat)
    }
}

pub proof fn lemma_pow10_increases(i: nat, j: nat)
    requires
        i <= j,
    ensures
        pow10(i) <= pow10(j),
    decreases j,
{
    if i < j {
        lemma_pow10_increases(i, (j - 1) as nat);
    }
}

/// `10^e`, computed at run time.
pub fn pow10_exec(e: usize) -> (r: usize)
    requires
        pow10(e as nat) <= usize::MAX,
    ensures
        r == pow10(e as nat),
{
    let mut r: usize = 1;
    let mut i: usize = 0;
    while i < e
        invariant
            i <= e,
            r == pow10(i as nat),
            pow10(e as nat) <= usize::MAX,
        decreases e - i,
    {
        proof {
            lemma_pow10_increases((i + 1) as nat, e as nat);
        }
        r = r * 10;
        i = i + 1;
    }
    r
}

/// An exact fraction `num / den`: the crate's stand-in for a decimal value.
#[derive(Debug, Clone, Copy, PartialEq, Eq, Structural)]
pub struct Fraction {
    pub num: usize,
    pub den: usize,
}

/// A bounded percentage value.
///
/// A `Percent` is bounded from `MIN` to `MAX` percent inclusive and carries
/// `DECIMALS` significant digits after the decimal point: the stored integer
/// encodes the percentage scaled by `10^DECIMALS`.
#[derive(Debug, Clone, Copy)]
pub struct Percent<const MIN: usize, const MAX: usize, const DECIMALS: usize>(pub usize);

impl<const MIN: usize, const MAX: usize, const DECIMALS: usize> PartialEq for Percent<
    MIN,
    MAX,
    DECIMALS,
> {
    /// Two percentages are equal when their encoded values are.
    fn eq(&self, other: &Self) -> (r: bool) {
        self.0 == other.0
    }
}

impl<const MIN: usize, const MAX: usize, const DECIMALS: usize> vstd::std_specs::cmp::PartialEqSpecImpl for Percent<
    MIN,
    MAX,
    DECIMALS,
> {
    open spec fn obeys_eq_spec() -> bool {
        true
    }

    open spec fn eq_spec(&self, other: &Self) -> bool {
        self.0 == other.0
    }
}

impl<const MIN: usize, const MAX: usize, const DECIMALS: usize> Percent<MIN, MAX, DECIMALS> {
    /// The encoded value lies within the declared inclusive bound.
    pub open spec fn valid(self) -> bool {
        (MIN as nat) * pow10(DECIMALS as nat) <= self.0 as nat
            && self.0 as nat <= (MAX as nat) * pow10(DECIMALS as nat)
    }

    /// Validating constructor: accepts exactly the encoded values within
    /// `[MIN, MAX]` scaled by `10^DECIMALS`.
    pub fn new(value: usize) -> (r: Result<Self, Error>)
        requires
            pow10(DECIMALS as nat) <= usize::MAX,
            (MIN as nat) * pow10(DECIMALS as nat) <= usize::MAX,
            (MAX as nat) * pow10(DECIMALS as nat) <= usize::MAX,
        ensures
            r is Ok <==> (MIN as nat) * pow10(DECIMALS as nat) <= value as nat
                && value as nat <= (MAX as nat) * pow10(DECIMALS as nat),
            r matches Ok(p) ==> p.0 == value && p.valid(),
            r matches Err(e) ==> e == Error::InvalidPercentage(value, MIN, MAX),
    {
        let mult = pow10_exec(DECIMALS);
        if MIN * mult <= value && value <= MAX * mult {
            Ok(Self(value))
        } else {
            Err(Error::InvalidPercentage(value, MIN, MAX))
        }
    }

    /// Non-failing variant of [`Self::new`].
    pub fn valid_new(value: usize) -> (r: Option<Self>)
        requires
            pow10(DECIMALS as nat) <= usize::MAX,
            (MIN as nat) * pow10(DECIMALS as nat) <= usize::MAX,
            (MAX as nat) * pow10(DECIMALS as nat) <= usize::MAX,
        ensures
            r is Some <==> (MIN as nat) * pow10(DECIMALS as nat) <= value as nat
                && value as nat <= (MAX as nat) * pow10(DECIMALS as nat),
            r matches Some(p) ==> p.0 == value && p.valid(),
    {
        let mult = pow10_exec(DECIMALS);
        if MIN * mult <= value && value <= MAX * mult {
            Some(Self(value))
        } else {
            None
        }
    }

    /// Builds the percentage denoting `value` whole percent.
    pub fn from_scalar(value: usize) -> (r: Self)
        requires
            MIN <= value <= MAX,
            pow10(DECIMALS as nat) <= usize::MAX,
            (MAX as nat) * pow10(DECIMALS as nat) <= usize::MAX,
        ensures
            r.0 as nat == (value as nat) * pow10(DECIMALS as nat),
            r.valid(),
    {
        let mult = pow10_exec(DECIMALS);
        proof {
            vstd::arithmetic::mul::lemma_mul_inequality(
                value as int,
                MAX as int,
                mult as int,
            );
            vstd::arithmetic::mul::lemma_mul_inequality(
                MIN as int,
                value as int,
                mult as int,
            );
        }
        Self(value * mult)
    }

    /// Returns the percentage as an exact decimal fraction.
    /// Example: 80% becomes 80/10000, that is 0.8.
    pub fn as_decimal(&self) -> (r: Fraction)
        requires
            pow10(DECIMALS as nat) * 100 <= usize::MAX,
        ensures
            r.num == self.0,
            r.den as nat == pow10(DECIMALS as nat) * 100,
            r.den > 0,
    {
        let mult = pow10_exec(DECIMALS);
        proof {
            assert(pow10(DECIMALS as nat) >= 1) by {
                lemma_pow10_increases(0, DECIMALS as nat);
            }
        }
        Fraction { num: self.0, den: mult * 100 }
    }

    /// Round-trip law: building a percentage from a whole-percent value and
    /// reading it back as a decimal fraction yields exactly `value / 100`.
    ///
    /// [`Self::from_scalar`]`(value)` encodes `value * 10^DECIMALS`, and
    /// [`Self::as_decimal`] turns that into the fraction with numerator
    /// `value * 10^DECIMALS` and denominator `10^DECIMALS * 100`; this law
    /// states that the fraction equals `value / 100` as a rational number:
    /// `num * 100 == value * den`.
    pub proof fn lemma_as_decimal_round_trip(value: nat)
        ensures
            (value * pow10(DECIMALS as nat)) * 100 == value * (pow10(DECIMALS as nat) * 100),
    {
        vstd::arithmetic::mul::lemma_mul_is_associative(
            value as int,
            pow10(DECIMALS as nat) as int,
            100,
        );
    }

    /// Unchecked addition of encoded values, as used when summing ratios.
    pub fn plus(self, other: Self) -> (r: Self)
        requires
            self.0 + other.0 <= usize::MAX,
        ensures
            r.0 == self.0 + other.0,
    {
        Self(self.0 + other.0)
    }

    /// The declared inclusive bound, in whole percent.
    pub fn range() -> (r: (usize, usize))
        ensures
            r.0 == MIN,
            r.1 == MAX,
    {
        (MIN, MAX)
    }
}

} // verus!

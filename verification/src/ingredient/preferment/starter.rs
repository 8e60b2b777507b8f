use vstd::prelude::*;

use crate::common::mass::{lemma_scale_round_le, scale_round, Gram};
use crate::common::percent::{pow10, Percent};
use crate::descriptor::{all_digits, digits_val, has_sep, split_first, parse_number, split_once_at, find_sep};
use crate::error::Error;
use crate::ingredient::preferment::preferment::{HydrationPercent, PortionPercent, Preferment};
use vstd::arithmetic::div_mod::{lemma_div_is_ordered, lemma_div_multiples_vanish_fancy};
use vstd::arithmetic::mul::{lemma_mul_inequality, lemma_mul_is_commutative};

verus! {

/// What a starter argument string `<portion>:<hydration>` denotes: the two
/// numbers, provided the string is exactly two nonempty digit runs joined
/// by one colon and both numbers are small enough to be percentages.
pub open spec fn parsed_starter_args(s: Seq<char>) -> Option<(int, int)> {
    match split_first(s, ':') {
        Option::None => Option::None,
        Option::Some(p) => {
            if !has_sep(p.1, ':') && p.0.len() > 0 && all_digits(p.0) && digits_val(p.0)
                <= 10_000_000 && p.1.len() > 0 && all_digits(p.1) && digits_val(p.1)
                <= 10_000_000 {
                Option::Some((digits_val(p.0), digits_val(p.1)))
            } else {
                Option::None
            }
        },
    }
}

/// A sourdough starter, described as a portion of the recipe's total flour
/// at a given hydration.
///
/// Its flour content is the declared portion of the total flour mass; its
/// water content is the hydration percentage applied to that flour.
#[derive(Debug, Clone, Copy)]
pub struct Starter {
    pub total_flour: Gram,
    pub portion: PortionPercent,
    pub hydration: HydrationPercent,
}

impl Starter {
    /// Flour drawn from the recipe's total: `total_flour * portion`.
    pub open spec fn flour_spec(self) -> int {
        scale_round(self.total_flour@, self.portion.0 as int, 100)
    }

    /// Water content: the hydration applied to the starter's flour.
    pub open spec fn water_spec(self) -> int {
        scale_round(self.flour_spec(), self.hydration.0 as int, 100)
    }

    pub open spec fn total_spec(self) -> int {
        self.flour_spec() + self.water_spec()
    }

    /// Declared percentages within their bounds, and the total flour small
    /// enough that every derived mass fits the mass representation.
    pub open spec fn wf(self) -> bool {
        &&& self.portion.valid()
        &&& self.hydration.valid()
        &&& self.total_flour@ * 6 <= u64::MAX
    }

    pub fn new(total_flour: &Gram, portion: PortionPercent, hydration: HydrationPercent) -> (r:
        Starter)
        requires
            portion.valid(),
            hydration.valid(),
            total_flour@ * 6 <= u64::MAX,
        ensures
            r == (Starter { total_flour: *total_flour, portion, hydration }),
            r.wf(),
    {
        Starter { total_flour: *total_flour, portion, hydration }
    }

    /// Builds a starter from a textual `<portion>:<hydration>` descriptor.
    /// A string that is not two numbers joined by one colon is rejected as
    /// malformed; a number outside its percentage bound is rejected with the
    /// value and the bound.
    pub fn build(args: String, total_mass: &Gram) -> (r: Result<Starter, Error>)
        requires
            total_mass@ * 6 <= u64::MAX,
        ensures
            match parsed_starter_args(args@) {
                Some(ph) => {
                    &&& (r is Ok <==> 1 <= ph.0 <= 30 && 50 <= ph.1 <= 500)
                    &&& (r matches Ok(s) ==> s.wf() && s.total_flour == *total_mass
                        && s.portion.0 == ph.0 && s.hydration.0 == ph.1)
                    &&& (!(1 <= ph.0 <= 30) ==> r == Err::<Starter, Error>(
                        Error::InvalidPercentage(ph.0 as usize, 1, 30),
                    ))
                    &&& (1 <= ph.0 <= 30 && !(50 <= ph.1 <= 500) ==> r == Err::<Starter, Error>(
                        Error::InvalidPercentage(ph.1 as usize, 50, 500),
                    ))
                },
                None => r matches Err(e) ==> e.is_invalid_starter_args(args@),
            },
            parsed_starter_args(args@) is None ==> r is Err,
    {
        let parts = match split_once_at(args.as_str(), ':') {
            Option::None => {
                return Err(Error::InvalidStarterArgs(args));
            },
            Option::Some(p) => p,
        };
        let (first, second) = parts;
        if let Option::Some(_) = find_sep(second.as_str(), ':') {
            return Err(Error::InvalidStarterArgs(args));
        }
        let pv = match parse_number(first.as_str()) {
            Option::None => {
                return Err(Error::InvalidStarterArgs(args));
            },
            Option::Some(v) => v,
        };
        if pv > 10_000_000 {
            return Err(Error::InvalidStarterArgs(args));
        }
        let hv = match parse_number(second.as_str()) {
            Option::None => {
                return Err(Error::InvalidStarterArgs(args));
            },
            Option::Some(v) => v,
        };
        if hv > 10_000_000 {
            return Err(Error::InvalidStarterArgs(args));
        }
        if pv < 1 || pv > 30 {
            return Err(Error::InvalidPercentage(pv as usize, 1, 30));
        }
        if hv < 50 || hv > 500 {
            return Err(Error::InvalidPercentage(hv as usize, 50, 500));
        }
        proof {
            assert(pow10(0) == 1);
        }
        Ok(Starter::new(total_mass, Percent(pv as usize), Percent(hv as usize)))
    }

    /// The starter's flour never exceeds the recipe's total flour, and its
    /// water never exceeds five times its flour (hydration is at most 500%).
    pub proof fn lemma_mass_bounds(self)
        requires
            self.wf(),
        ensures
            0 <= self.flour_spec() <= self.total_flour@,
            0 <= self.water_spec() <= 5 * self.flour_spec(),
            self.total_spec() <= 6 * self.total_flour@,
    {
        let t = self.total_flour@;
        let f = self.flour_spec();
        lemma_scale_round_le(t, self.portion.0 as int, 100);
        vstd::arithmetic::div_mod::lemma_div_pos_is_pos(
            t * self.portion.0 + 50,
            100,
        );
        vstd::arithmetic::mul::lemma_mul_nonnegative(t, self.portion.0 as int);
        // water <= scale_round(f, 500, 100) == 5 * f
        lemma_mul_inequality(self.hydration.0 as int, 500, f);
        lemma_mul_is_commutative(self.hydration.0 as int, f);
        lemma_mul_is_commutative(500, f);
        lemma_div_is_ordered(f * self.hydration.0 + 50, f * 500 + 50, 100);
        assert(f * 500 == 100 * (5 * f)) by (nonlinear_arith);
        lemma_div_multiples_vanish_fancy(5 * f, 50, 100);
        vstd::arithmetic::div_mod::lemma_div_pos_is_pos(
            f * self.hydration.0 + 50,
            100,
        );
        vstd::arithmetic::mul::lemma_mul_nonnegative(f, self.hydration.0 as int);
    }

    /// The starter's flour mass.
    pub fn flour(&self) -> (r: Gram)
        requires
            self.wf(),
        ensures
            r@ == self.flour_spec(),
    {
        proof {
            self.lemma_mass_bounds();
            assert(crate::common::percent::pow10(0) == 1);
        }
        self.total_flour.times_ratio(self.portion)
    }

    /// The starter's water mass.
    pub fn water(&self) -> (r: Gram)
        requires
            self.wf(),
        ensures
            r@ == self.water_spec(),
    {
        proof {
            self.lemma_mass_bounds();
            assert(crate::common::percent::pow10(0) == 1);
        }
        let flour = self.flour();
        flour.times_ratio(self.hydration)
    }

    /// The starter's whole mass, flour plus water.
    pub fn total(&self) -> (r: Gram)
        requires
            self.wf(),
        ensures
            r@ == self.total_spec(),
    {
        proof {
            self.lemma_mass_bounds();
        }
        self.flour().plus(self.water())
    }
}

impl Preferment for Starter {

}

} // verus!

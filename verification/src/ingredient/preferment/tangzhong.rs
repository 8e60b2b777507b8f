use vstd::prelude::*;

use crate::common::mass::{scale_round, Gram};
use crate::common::percent::{pow10, Percent};
use crate::descriptor::{find_sep, parse_number, split_once_at};
use crate::error::Error;
use crate::ingredient::preferment::preferment::{HydrationPercent, PortionPercent, Preferment};
use crate::ingredient::preferment::starter::parsed_starter_args;

verus! {

/// A tangzhong (water roux), described as a portion of the recipe's total
/// flour at a given hydration, cooked before it joins the final dough.
///
/// Its flour content is the declared portion of the total flour mass; its
/// water content is the hydration percentage applied to that flour.
#[derive(Debug, Clone, Copy)]
pub struct Tangzhong {
    pub total_flour: Gram,
    pub portion: PortionPercent,
    pub hydration: HydrationPercent,
}

impl Tangzhong {
    /// Flour drawn from the recipe's total: `total_flour * portion`.
    pub open spec fn flour_spec(self) -> int {
        scale_round(self.total_flour@, self.portion.0 as int, 100)
    }

    /// Water content: the hydration applied to the tangzhong's flour.
    pub open spec fn water_spec(self) -> int {
        scale_round(self.flour_spec(), self.hydration.0 as int, 100)
    }

    pub open spec fn total_spec(self) -> int {
        self.flour_spec() + self.water_spec()
    }

    /// Declared percentages within their bounds, and the total flour small
    /// enough that every derived mass fits the mass representation.
    pub open spec fn wf(self) -> bool {
        &&& self.portion.valid()
        &&& self.hydration.valid()
        &&& self.total_flour@ * 6 <= u64::MAX
    }

    pub fn new(total_flour: &Gram, portion: PortionPercent, hydration: HydrationPercent) -> (r:
        Tangzhong)
        requires
            portion.valid(),
            hydration.valid(),
            total_flour@ * 6 <= u64::MAX,
        ensures
            r == (Tangzhong { total_flour: *total_flour, portion, hydration }),
            r.wf(),
    {
        Tangzhong { total_flour: *total_flour, portion, hydration }
    }

    proof fn lemma_mass_bounds(self)
        requires
            self.wf(),
        ensures
            0 <= self.flour_spec() <= self.total_flour@,
            0 <= self.water_spec() <= 5 * self.flour_spec(),
            self.total_spec() <= 6 * self.total_flour@,
    {
        let peer = crate::ingredient::preferment::starter::Starter {
            total_flour: self.total_flour,
            portion: self.portion,
            hydration: self.hydration,
        };
        peer.lemma_mass_bounds();
    }

    /// The tangzhong's flour mass.
    pub fn flour(&self) -> (r: Gram)
        requires
            self.wf(),
        ensures
            r@ == self.flour_spec(),
    {
        proof {
            self.lemma_mass_bounds();
            assert(pow10(0) == 1);
        }
        self.total_flour.times_ratio(self.portion)
    }

    /// The tangzhong's water mass.
    pub fn water(&self) -> (r: Gram)
        requires
            self.wf(),
        ensures
            r@ == self.water_spec(),
    {
        proof {
            self.lemma_mass_bounds();
            assert(pow10(0) == 1);
        }
        let flour = self.flour();
        flour.times_ratio(self.hydration)
    }

    /// The tangzhong's whole mass, flour plus water.
    pub fn total(&self) -> (r: Gram)
        requires
            self.wf(),
        ensures
            r@ == self.total_spec(),
    {
        proof {
            self.lemma_mass_bounds();
        }
        self.flour().plus(self.water())
    }

    /// Builds a tangzhong from a textual `<portion>:<hydration>` descriptor,
    /// under the same grammar as a starter descriptor.
    pub fn build(args: String, total_mass: &Gram) -> (r: Result<Tangzhong, Error>)
        requires
            total_mass@ * 6 <= u64::MAX,
        ensures
            match parsed_starter_args(args@) {
                Some(ph) => {
                    &&& (r is Ok <==> 1 <= ph.0 <= 30 && 50 <= ph.1 <= 500)
                    &&& (r matches Ok(t) ==> t.wf() && t.total_flour == *total_mass
                        && t.portion.0 == ph.0 && t.hydration.0 == ph.1)
                    &&& (!(1 <= ph.0 <= 30) ==> r == Err::<Tangzhong, Error>(
                        Error::InvalidPercentage(ph.0 as usize, 1, 30),
                    ))
                    &&& (1 <= ph.0 <= 30 && !(50 <= ph.1 <= 500) ==> r == Err::<
                        Tangzhong,
                        Error,
                    >(Error::InvalidPercentage(ph.1 as usize, 50, 500)))
                },
                None => r matches Err(e) ==> e.is_invalid_starter_args(args@),
            },
            parsed_starter_args(args@) is None ==> r is Err,
    {
        let parts = match split_once_at(args.as_str(), ':') {
            Option::None => {
                return Err(Error::InvalidStarterArgs(args));
            },
            Option::Some(p) => p,
        };
        let (first, second) = parts;
        if let Option::Some(_) = find_sep(second.as_str(), ':') {
            return Err(Error::InvalidStarterArgs(args));
        }
        let pv = match parse_number(first.as_str()) {
            Option::None => {
                return Err(Error::InvalidStarterArgs(args));
            },
            Option::Some(v) => v,
        };
        if pv > 10_000_000 {
            return Err(Error::InvalidStarterArgs(args));
        }
        let hv = match parse_number(second.as_str()) {
            Option::None => {
                return Err(Error::InvalidStarterArgs(args));
            },
            Option::Some(v) => v,
        };
        if hv > 10_000_000 {
            return Err(Error::InvalidStarterArgs(args));
        }
        if pv < 1 || pv > 30 {
            return Err(Error::InvalidPercentage(pv as usize, 1, 30));
        }
        if hv < 50 || hv > 500 {
            return Err(Error::InvalidPercentage(hv as usize, 50, 500));
        }
        proof {
            assert(pow10(0) == 1);
        }
        Ok(Tangzhong::new(total_mass, Percent(pv as usize), Percent(hv as usize)))
    }
}

impl Preferment for Tangzhong {

}

} // verus!

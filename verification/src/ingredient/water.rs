use vstd::prelude::*;

use crate::common::mass::{scale_round, Gram};

verus! {

/// Plain water: contributes only to the liquid side of the accounting.
#[derive(Debug, Clone, Copy, PartialEq, Eq, Structural)]
pub struct Water {
    pub mass: Gram,
}

impl Water {
    /// The water mass of this ingredient.
    pub fn water(&self) -> (r: Gram)
        ensures
            r == self.mass,
    {
        self.mass
    }

    /// More water.
    pub fn plus(self, other: Gram) -> (r: Water)
        requires
            self.mass@ + other@ <= u64::MAX,
        ensures
            r.mass@ == self.mass@ + other@,
    {
        Water { mass: self.mass.plus(other) }
    }

    /// Scaling by a decimal factor, rounded to a hundredth of a gram.
    pub fn times(self, other: Gram) -> (r: Water)
        requires
            scale_round(self.mass@, other@, 100) <= u64::MAX,
        ensures
            r.mass@ == scale_round(self.mass@, other@, 100),
    {
        Water { mass: self.mass.times(other) }
    }

    /// Division by a decimal divisor, rounded to a hundredth of a gram.
    pub fn div_by(self, other: Gram) -> (r: Water)
        requires
            other@ > 0,
            scale_round(self.mass@, 100, other@) <= u64::MAX,
        ensures
            r.mass@ == scale_round(self.mass@, 100, other@),
    {
        Water { mass: self.mass.div_by(other) }
    }
}

impl From<Gram> for Water {
    fn from(value: Gram) -> (r: Water) {
        Water { mass: value }
    }
}

impl vstd::std_specs::convert::FromSpecImpl<Gram> for Water {
    open spec fn obeys_from_spec() -> bool {
        true
    }

    open spec fn from_spec(value: Gram) -> Water {
        Water { mass: value }
    }
}

impl From<i32> for Water {
    fn from(value: i32) -> (r: Water) {
        Water { mass: Gram::from(value) }
    }
}

impl vstd::std_specs::convert::FromSpecImpl<i32> for Water {
    open spec fn obeys_from_spec() -> bool {
        true
    }

    open spec fn from_spec(value: i32) -> Water {
        Water { mass: <Gram as vstd::std_specs::convert::FromSpec<i32>>::from_spec(value) }
    }
}

} // verus!

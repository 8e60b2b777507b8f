use vstd::prelude::*;

use crate::common::percent::Percent;

verus! {

/// Salt content in dough, ranging from 1.0% to 4.0% with one decimal place.
pub type SaltPercentage = Percent<1, 4, 1>;

} // verus!

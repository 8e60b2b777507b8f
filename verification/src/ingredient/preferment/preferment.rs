use vstd::prelude::*;

use crate::common::percent::Percent;

verus! {

/// The preferment's flour as a percent of the total flour in the recipe.
pub type PortionPercent = Percent<1, 30, 0>;

/// Water as a percent of the preferment's flour (100% means equal parts).
pub type HydrationPercent = Percent<50, 500, 0>;

/// Marker for a mixture of dough components that ferments before it is
/// added to the final dough: a preferment has water and flour components
/// in varying ratios, characterised by its hydration percentage and its
/// portion of the recipe's total flour.
pub trait Preferment {

}

} // verus!

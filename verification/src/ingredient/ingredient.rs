use vstd::prelude::*;

use crate::common::mass::Gram;
use crate::ingredient::enrichment::Enrichment;
use crate::ingredient::flour::{sum_flour, Flours};
use crate::ingredient::preferment::starter::Starter;
use crate::ingredient::water::Water;

verus! {

/// The closed set of ingredient kinds of a recipe.
///
/// The two most important ingredients are flour (baker's math relates every
/// quantity to the total flour content) and water (the dough's hydration).
/// Everything else counts as "other".  Every kind answers the same
/// mass-accounting questions: its water, flour and other content, and their
/// total.
#[derive(Debug, Clone)]
pub enum Ingredient {
    Water(Water),
    FlourMix(Flours),
    Salt(Enrichment<1, 4, 1>),
    Enrichment(Enrichment<0, 10_000_000, 0>),
    Preferment(Starter),
}

impl Ingredient {
    /// The carried ingredient is well formed and within machine bounds.
    pub open spec fn wf(self) -> bool {
        match self {
            Ingredient::Water(_) => true,
            Ingredient::FlourMix(f) => f.wf(),
            Ingredient::Salt(e) => e.wf(),
            Ingredient::Enrichment(e) => e.wf(),
            Ingredient::Preferment(s) => s.wf(),
        }
    }

    /// Water mass of the ingredient.
    pub open spec fn water_spec(self) -> int {
        match self {
            Ingredient::Water(w) => w.mass@,
            Ingredient::FlourMix(_) => 0,
            Ingredient::Salt(_) => 0,
            Ingredient::Enrichment(_) => 0,
            Ingredient::Preferment(s) => s.water_spec(),
        }
    }

    /// Flour mass of the ingredient.
    pub open spec fn flour_spec(self) -> int {
        match self {
            Ingredient::Water(_) => 0,
            Ingredient::FlourMix(f) => sum_flour(f.mix@),
            Ingredient::Salt(_) => 0,
            Ingredient::Enrichment(_) => 0,
            Ingredient::Preferment(s) => s.flour_spec(),
        }
    }

    /// The mass of what is neither water nor flour (salt, seeds, sugar...).
    pub open spec fn other_spec(self) -> int {
        match self {
            Ingredient::Water(_) => 0,
            Ingredient::FlourMix(_) => 0,
            Ingredient::Salt(e) => e.other_spec(),
            Ingredient::Enrichment(e) => e.other_spec(),
            Ingredient::Preferment(_) => 0,
        }
    }

    /// The total mass of the ingredient.
    pub open spec fn total_spec(self) -> int {
        self.water_spec() + self.flour_spec() + self.other_spec()
    }

    /// Water mass of the ingredient.
    pub fn water(&self) -> (r: Gram)
        requires
            self.wf(),
        ensures
            r@ == self.water_spec(),
    {
        match self {
            Ingredient::Water(w) => w.mass,
            Ingredient::FlourMix(_) => Gram::zero(),
            Ingredient::Salt(_) => Gram::zero(),
            Ingredient::Enrichment(_) => Gram::zero(),
            Ingredient::Preferment(s) => s.water(),
        }
    }

    /// Flour mass of the ingredient.
    pub fn flour(&self) -> (r: Gram)
        requires
            self.wf(),
        ensures
            r@ == self.flour_spec(),
    {
        match self {
            Ingredient::Water(_) => Gram::zero(),
            Ingredient::FlourMix(f) => f.flour(),
            Ingredient::Salt(_) => Gram::zero(),
            Ingredient::Enrichment(_) => Gram::zero(),
            Ingredient::Preferment(s) => s.flour(),
        }
    }

    /// The mass of what is neither water nor flour.
    pub fn other(&self) -> (r: Gram)
        requires
            self.wf(),
        ensures
            r@ == self.other_spec(),
    {
        match self {
            Ingredient::Water(_) => Gram::zero(),
            Ingredient::FlourMix(_) => Gram::zero(),
            Ingredient::Salt(e) => e.other(),
            Ingredient::Enrichment(e) => e.other(),
            Ingredient::Preferment(_) => Gram::zero(),
        }
    }

    /// Every accounted mass fits the mass representation.
    pub proof fn lemma_mass_bounds(self)
        requires
            self.wf(),
        ensures
            0 <= self.water_spec(),
            0 <= self.flour_spec(),
            0 <= self.other_spec(),
            self.total_spec() <= u64::MAX,
    {
        match self {
            Ingredient::Water(_) => {
            },
            Ingredient::FlourMix(f) => {
                f.lemma_flour_bound();
            },
            Ingredient::Salt(e) => {
                e.lemma_other_bound();
            },
            Ingredient::Enrichment(e) => {
                e.lemma_other_bound();
            },
            Ingredient::Preferment(s) => {
                s.lemma_mass_bounds();
            },
        }
    }

    /// The total mass of the ingredient: water plus flour plus other.
    pub fn total(&self) -> (r: Gram)
        requires
            self.wf(),
        ensures
            r@ == self.total_spec(),
    {
        proof {
            self.lemma_mass_bounds();
        }
        self.water().plus(self.flour()).plus(self.other())
    }
}

} // verus!

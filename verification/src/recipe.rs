use vstd::prelude::*;

use crate::common::mass::{lemma_scale_round_le, scale_round, Gram};
use crate::common::percent::{pow10, Percent};
use crate::descriptor::{all_digits, digits_val, split_first, parse_number, split_once_at};
use crate::error::Error;
use crate::ingredient::enrichment::Enrichment;
use crate::ingredient::flour::{sum_flour, sum_ratios, Flours};
use crate::ingredient::ingredient::Ingredient;
use crate::ingredient::preferment::builder::{id_matches_starter, Builder};
use crate::ingredient::preferment::starter::parsed_starter_args;
use crate::ingredient::salt::SaltPercentage;
use crate::ingredient::water::Water;
use vstd::arithmetic::div_mod::{
    lemma_div_is_ordered, lemma_div_multiples_vanish_fancy, lemma_div_pos_is_pos,
};
use vstd::arithmetic::mul::{lemma_mul_inequality, lemma_mul_is_commutative};
use vstd::string::StringExecFns;

verus! {

/// Required recipe hydration: liquid over total flour mass.
pub type Hydration = Percent<50, 120, 0>;

/// Total water mass over a list of ingredients.
pub open spec fn water_sum(s: Seq<Ingredient>) -> int
    decreases s.len(),
{
    if s.len() == 0 {
        0
    } else {
        water_sum(s.drop_last()) + s.last().water_spec()
    }
}

/// Total flour mass over a list of ingredients.
pub open spec fn flour_sum(s: Seq<Ingredient>) -> int
    decreases s.len(),
{
    if s.len() == 0 {
        0
    } else {
        flour_sum(s.drop_last()) + s.last().flour_spec()
    }
}

/// Total non-water, non-flour mass over a list of ingredients.
pub open spec fn other_sum(s: Seq<Ingredient>) -> int
    decreases s.len(),
{
    if s.len() == 0 {
        0
    } else {
        other_sum(s.drop_last()) + s.last().other_spec()
    }
}

/// Total mass over a list of ingredients.
pub open spec fn total_sum(s: Seq<Ingredient>) -> int
    decreases s.len(),
{
    if s.len() == 0 {
        0
    } else {
        total_sum(s.drop_last()) + s.last().total_spec()
    }
}

proof fn lemma_ing_take_step(s: Seq<Ingredient>, i: int)
    requires
        0 <= i < s.len(),
    ensures
        water_sum(s.take(i + 1)) == water_sum(s.take(i)) + s[i].water_spec(),
        flour_sum(s.take(i + 1)) == flour_sum(s.take(i)) + s[i].flour_spec(),
        other_sum(s.take(i + 1)) == other_sum(s.take(i)) + s[i].other_spec(),
        total_sum(s.take(i + 1)) == total_sum(s.take(i)) + s[i].total_spec(),
{
    assert(s.take(i + 1).drop_last() =~= s.take(i));
    assert(s.take(i + 1).last() == s[i]);
}

proof fn lemma_ing_sums(s: Seq<Ingredient>)
    requires
        forall|i: int| 0 <= i < s.len() ==> (#[trigger] s[i]).wf(),
    ensures
        0 <= water_sum(s),
        0 <= flour_sum(s),
        0 <= other_sum(s),
        total_sum(s) == water_sum(s) + flour_sum(s) + other_sum(s),
    decreases s.len(),
{
    if s.len() > 0 {
        lemma_ing_sums(s.drop_last());
        s.last().lemma_mass_bounds();
    }
}

proof fn lemma_ing_prefix_le(s: Seq<Ingredient>, i: int)
    requires
        0 <= i <= s.len(),
        forall|j: int| 0 <= j < s.len() ==> (#[trigger] s[j]).wf(),
    ensures
        water_sum(s.take(i)) <= water_sum(s),
        flour_sum(s.take(i)) <= flour_sum(s),
        other_sum(s.take(i)) <= other_sum(s),
        total_sum(s.take(i)) <= total_sum(s),
    decreases s.len() - i,
{
    if i == s.len() {
        assert(s.take(i) =~= s);
    } else {
        lemma_ing_take_step(s, i);
        s[i].lemma_mass_bounds();
        lemma_ing_prefix_le(s, i + 1);
    }
}

/// What a flour descriptor `<name>:<integer percent>` denotes: the name and
/// the percentage, provided the part after the first colon is a nonempty
/// digit run small enough to be a ratio.
pub open spec fn parse_flour_desc(s: Seq<char>) -> Option<(Seq<char>, int)> {
    match split_first(s, ':') {
        Option::None => Option::None,
        Option::Some(p) => {
            if p.1.len() > 0 && all_digits(p.1) && digits_val(p.1) <= 10_000_000 {
                Option::Some((p.0, digits_val(p.1)))
            } else {
                Option::None
            }
        },
    }
}

/// The views of a list of descriptor strings.
pub open spec fn descs(ds: Seq<String>) -> Seq<Seq<char>> {
    ds.map_values(|d: String| d@)
}

/// Sum of the ratios that a list of flour descriptors declares, counting a
/// malformed descriptor as zero.
pub open spec fn sum_parsed(ds: Seq<Seq<char>>) -> int
    decreases ds.len(),
{
    if ds.len() == 0 {
        0
    } else {
        sum_parsed(ds.drop_last()) + (match parse_flour_desc(ds.last()) {
            Option::Some(p) => p.1,
            Option::None => 0,
        })
    }
}

/// The descriptor parses as a flour descriptor.
pub open spec fn flour_desc_parses(s: Seq<char>) -> bool {
    parse_flour_desc(s) is Some
}

/// The name a flour descriptor declares (the empty name if it is malformed).
pub open spec fn flour_desc_name(s: Seq<char>) -> Seq<char> {
    match parse_flour_desc(s) {
        Option::Some(p) => p.0,
        Option::None => Seq::empty(),
    }
}

/// The share a flour descriptor declares (zero if it is malformed).
pub open spec fn flour_desc_ratio(s: Seq<char>) -> int {
    match parse_flour_desc(s) {
        Option::Some(p) => p.1,
        Option::None => 0,
    }
}

/// Fraction `j` of a mix records exactly what flour descriptor `j`
/// declares, for every `j` below `n`.
pub open spec fn mix_matches_descs(
    ds: Seq<Seq<char>>,
    mix: Seq<crate::ingredient::flour::Flour>,
    n: int,
) -> bool {
    &&& (forall|j: int| 0 <= j < n ==> flour_desc_parses(#[trigger] ds[j]))
    &&& (forall|j: int| 0 <= j < n ==> (#[trigger] mix[j]).name@ == flour_desc_name(ds[j]))
    &&& (forall|j: int| 0 <= j < n ==> (#[trigger] mix[j]).ratio.0 == flour_desc_ratio(ds[j]))
    &&& (forall|j: int| 0 <= j < n ==> (#[trigger] mix[j]).repurposed@ == 0)
}

/// The `i`-th flour descriptor parses, declares a share between 1% and
/// 100%, and does not push the cumulative sum over 100%.
pub open spec fn flour_desc_step_ok(ds: Seq<Seq<char>>, i: int) -> bool {
    match parse_flour_desc(ds[i]) {
        Option::Some(p) => 1 <= p.1 <= 100 && sum_parsed(ds.take(i + 1)) <= 100,
        Option::None => false,
    }
}

proof fn lemma_sum_parsed_take_step(ds: Seq<Seq<char>>, i: int)
    requires
        0 <= i < ds.len(),
    ensures
        sum_parsed(ds.take(i + 1)) == sum_parsed(ds.take(i)) + (match parse_flour_desc(ds[i]) {
            Option::Some(p) => p.1,
            Option::None => 0,
        }),
{
    assert(ds.take(i + 1).drop_last() =~= ds.take(i));
    assert(ds.take(i + 1).last() == ds[i]);
}

/// The preferment descriptor selects a registered builder and carries
/// arguments that the builder accepts.
pub open spec fn pref_desc_ok(s: Seq<char>) -> bool {
    match split_first(s, ':') {
        Option::Some(ia) => id_matches_starter(ia.0) && (match parsed_starter_args(ia.1) {
            Option::Some(ph) => 1 <= ph.0 <= 30 && 50 <= ph.1 <= 500,
            Option::None => false,
        }),
        Option::None => false,
    }
}

/// The appended ingredient is the preferment that the descriptor denotes:
/// a well-formed starter on the total flour mass `t`, carrying exactly the
/// portion and hydration the descriptor's argument part declares.
pub open spec fn pref_matches_desc(ing: Ingredient, s: Seq<char>, t: int) -> bool {
    match ing {
        Ingredient::Preferment(st) => st.wf() && st.total_flour@ == t && (match split_first(
            s,
            ':',
        ) {
            Option::Some(ia) => match parsed_starter_args(ia.1) {
                Option::Some(ph) => st.portion.0 == ph.0 && st.hydration.0 == ph.1,
                Option::None => false,
            },
            Option::None => false,
        }),
        _ => false,
    }
}

/// The enrichment descriptor is acceptable against a total flour mass `t`:
/// either `<name>%<ratio>` with a digit-run ratio within the ratio range,
/// or `<name>:<mass>` with a digit-run mass whose derived percentage of the
/// total fits the ratio range; in both forms the contributed mass must stay
/// representable.
pub open spec fn enrichment_desc_ok(s: Seq<char>, t: int) -> bool {
    match split_first(s, '%') {
        Option::Some(p) => p.1.len() > 0 && all_digits(p.1) && digits_val(p.1) <= 10_000_000
            && scale_round(t, digits_val(p.1), 100) + 100 <= u64::MAX,
        Option::None => match split_first(s, ':') {
            Option::Some(p) => p.1.len() > 0 && all_digits(p.1) && digits_val(p.1) * 100
                <= u64::MAX && t > 0 && digits_val(p.1) * 100 * 100 / t <= 10_000_000
                && scale_round(t, digits_val(p.1) * 100 * 100 / t, 100) + 100 <= u64::MAX,
            Option::None => false,
        },
    }
}

/// The flour demand that a preferment descriptor makes against a total
/// flour mass `t`, counting a malformed descriptor as zero.
pub open spec fn pref_desc_demand(s: Seq<char>, t: int) -> int {
    match split_first(s, ':') {
        Option::Some(ia) => match parsed_starter_args(ia.1) {
            Option::Some(ph) => scale_round(t, ph.0, 100),
            Option::None => 0,
        },
        Option::None => 0,
    }
}

/// The combined flour demand of a list of preferment descriptors.
pub open spec fn sum_demands(ds: Seq<Seq<char>>, t: int) -> int
    decreases ds.len(),
{
    if ds.len() == 0 {
        0
    } else {
        sum_demands(ds.drop_last(), t) + pref_desc_demand(ds.last(), t)
    }
}

proof fn lemma_sum_demands_take_step(ds: Seq<Seq<char>>, t: int, i: int)
    requires
        0 <= i < ds.len(),
    ensures
        sum_demands(ds.take(i + 1), t) == sum_demands(ds.take(i), t) + pref_desc_demand(
            ds[i],
            t,
        ),
{
    assert(ds.take(i + 1).drop_last() =~= ds.take(i));
    assert(ds.take(i + 1).last() == ds[i]);
}

proof fn lemma_pref_demand_nonneg(s: Seq<char>, t: int)
    requires
        0 <= t,
    ensures
        pref_desc_demand(s, t) >= 0,
{
    match split_first(s, ':') {
        Option::Some(ia) => {
            match parsed_starter_args(ia.1) {
                Option::Some(ph) => {
                    match split_first(ia.1, ':') {
                        Option::Some(q) => {
                            crate::descriptor::lemma_digits_val_nonneg(q.0);
                        },
                        Option::None => {
                        },
                    }
                    vstd::arithmetic::mul::lemma_mul_nonnegative(t, ph.0);
                    lemma_div_pos_is_pos(t * ph.0 + 50, 100);
                },
                Option::None => {
                },
            }
        },
        Option::None => {
        },
    }
}

proof fn lemma_sum_demands_prefix_le(ds: Seq<Seq<char>>, t: int, i: int)
    requires
        0 <= i <= ds.len(),
        0 <= t,
    ensures
        sum_demands(ds.take(i), t) <= sum_demands(ds, t),
    decreases ds.len() - i,
{
    if i == ds.len() {
        assert(ds.take(i) =~= ds);
    } else {
        lemma_sum_demands_take_step(ds, t, i);
        lemma_pref_demand_nonneg(ds[i], t);
        lemma_sum_demands_prefix_le(ds, t, i + 1);
    }
}

/// A whole recipe: the shared total flour mass, the declared hydration, and
/// the list of ingredients accumulated so far.
#[derive(Debug)]
pub struct Recipe {
    /// The recipe's total flour mass, shared read-only by the ingredients.
    pub total_mass: Gram,
    /// All ingredients in the recipe.
    pub ingredients: Vec<Ingredient>,
    /// Required recipe hydration (liquid over total flour mass).
    pub hydration: Hydration,
}

impl Recipe {
    /// Every ingredient is well formed, the hydration is within its bound,
    /// and the total mass leaves headroom for hydration arithmetic.
    pub open spec fn wf(self) -> bool {
        &&& self.hydration.valid()
        &&& self.total_mass@ * 2 <= u64::MAX
        &&& forall|i: int| 0 <= i < self.ingredients@.len() ==> (
        #[trigger] self.ingredients@[i]).wf()
    }

    /// The water mass that the declared hydration asks for.
    pub open spec fn water_target(self) -> int {
        scale_round(self.total_mass@, self.hydration.0 as int, 100)
    }

    pub fn new(total_mass: Gram, hydration: Hydration) -> (r: Recipe)
        requires
            hydration.valid(),
            total_mass@ * 2 <= u64::MAX,
        ensures
            r.total_mass == total_mass,
            r.hydration == hydration,
            r.ingredients@.len() == 0,
            r.wf(),
    {
        Recipe { total_mass, ingredients: Vec::new(), hydration }
    }

    /// The water the hydration asks for never exceeds twice the total mass.
    pub proof fn lemma_water_target_bound(self)
        requires
            self.wf(),
        ensures
            0 <= self.water_target() <= 2 * self.total_mass@,
    {
        let t = self.total_mass@;
        let h = self.hydration.0 as int;
        lemma_mul_inequality(h, 200, t);
        lemma_mul_is_commutative(h, t);
        lemma_mul_is_commutative(200, t);
        lemma_div_is_ordered(t * h + 50, t * 200 + 50, 100);
        assert(t * 200 == 100 * (2 * t)) by (nonlinear_arith);
        lemma_div_multiples_vanish_fancy(2 * t, 50, 100);
        vstd::arithmetic::mul::lemma_mul_nonnegative(t, h);
        lemma_div_pos_is_pos(t * h + 50, 100);
    }

    /// Total water in the recipe.
    #[verifier::loop_isolation(false)]
    pub fn water(&self) -> (r: Gram)
        requires
            self.wf(),
            total_sum(self.ingredients@) <= u64::MAX,
        ensures
            r@ == water_sum(self.ingredients@),
    {
        proof {
            lemma_ing_sums(self.ingredients@);
            assert(self.ingredients@.take(0) =~= Seq::<Ingredient>::empty());
        }
        let mut s: u64 = 0;
        let mut i: usize = 0;
        while i < self.ingredients.len()
            invariant
                i <= self.ingredients@.len(),
                s == water_sum(self.ingredients@.take(i as int)),
            decreases self.ingredients@.len() - i,
        {
            proof {
                lemma_ing_take_step(self.ingredients@, i as int);
                lemma_ing_prefix_le(self.ingredients@, i + 1);
                lemma_ing_sums(self.ingredients@.take(i + 1));
                assert forall|j: int| 0 <= j < i + 1 implies (#[trigger] self.ingredients@.take(
                    i + 1,
                )[j]).wf() by {
                    assert(self.ingredients@[j].wf());
                }
            }
            let w = self.ingredients[i].water();
            s = s + w.0;
            i = i + 1;
        }
        proof {
            assert(self.ingredients@.take(i as int) =~= self.ingredients@);
        }
        Gram(s)
    }

    /// Total flour in the recipe.
    #[verifier::loop_isolation(false)]
    pub fn flour(&self) -> (r: Gram)
        requires
            self.wf(),
            total_sum(self.ingredients@) <= u64::MAX,
        ensures
            r@ == flour_sum(self.ingredients@),
    {
        proof {
            lemma_ing_sums(self.ingredients@);
            assert(self.ingredients@.take(0) =~= Seq::<Ingredient>::empty());
        }
        let mut s: u64 = 0;
        let mut i: usize = 0;
        while i < self.ingredients.len()
            invariant
                i <= self.ingredients@.len(),
                s == flour_sum(self.ingredients@.take(i as int)),
            decreases self.ingredients@.len() - i,
        {
            proof {
                lemma_ing_take_step(self.ingredients@, i as int);
                lemma_ing_prefix_le(self.ingredients@, i + 1);
                lemma_ing_sums(self.ingredients@.take(i + 1));
                assert forall|j: int| 0 <= j < i + 1 implies (#[trigger] self.ingredients@.take(
                    i + 1,
                )[j]).wf() by {
                    assert(self.ingredients@[j].wf());
                }
            }
            let f = self.ingredients[i].flour();
            s = s + f.0;
            i = i + 1;
        }
        proof {
            assert(self.ingredients@.take(i as int) =~= self.ingredients@);
        }
        Gram(s)
    }

    /// Total non-water, non-flour mass in the recipe.
    #[verifier::loop_isolation(false)]
    pub fn other(&self) -> (r: Gram)
        requires
            self.wf(),
            total_sum(self.ingredients@) <= u64::MAX,
        ensures
            r@ == other_sum(self.ingredients@),
    {
        proof {
            lemma_ing_sums(self.ingredients@);
            assert(self.ingredients@.take(0) =~= Seq::<Ingredient>::empty());
        }
        let mut s: u64 = 0;
        let mut i: usize = 0;
        while i < self.ingredients.len()
            invariant
                i <= self.ingredients@.len(),
                s == other_sum(self.ingredients@.take(i as int)),
            decreases self.ingredients@.len() - i,
        {
            proof {
                lemma_ing_take_step(self.ingredients@, i as int);
                lemma_ing_prefix_le(self.ingredients@, i + 1);
                lemma_ing_sums(self.ingredients@.take(i + 1));
                assert forall|j: int| 0 <= j < i + 1 implies (#[trigger] self.ingredients@.take(
                    i + 1,
                )[j]).wf() by {
                    assert(self.ingredients@[j].wf());
                }
            }
            let o = self.ingredients[i].other();
            s = s + o.0;
            i = i + 1;
        }
        proof {
            assert(self.ingredients@.take(i as int) =~= self.ingredients@);
        }
        Gram(s)
    }

    /// Total mass of the recipe.
    #[verifier::loop_isolation(false)]
    pub fn total(&self) -> (r: Gram)
        requires
            self.wf(),
            total_sum(self.ingredients@) <= u64::MAX,
        ensures
            r@ == total_sum(self.ingredients@),
    {
        proof {
            lemma_ing_sums(self.ingredients@);
            assert(self.ingredients@.take(0) =~= Seq::<Ingredient>::empty());
        }
        let mut s: u64 = 0;
        let mut i: usize = 0;
        while i < self.ingredients.len()
            invariant
                i <= self.ingredients@.len(),
                s == total_sum(self.ingredients@.take(i as int)),
            decreases self.ingredients@.len() - i,
        {
            proof {
                lemma_ing_take_step(self.ingredients@, i as int);
                lemma_ing_prefix_le(self.ingredients@, i + 1);
                lemma_ing_sums(self.ingredients@.take(i + 1));
                assert forall|j: int| 0 <= j < i + 1 implies (#[trigger] self.ingredients@.take(
                    i + 1,
                )[j]).wf() by {
                    assert(self.ingredients@[j].wf());
                }
            }
            let t = self.ingredients[i].total();
            s = s + t.0;
            i = i + 1;
        }
        proof {
            assert(self.ingredients@.take(i as int) =~= self.ingredients@);
        }
        Gram(s)
    }

    /// The additional water required to reach the declared hydration:
    /// `total_flour_mass * hydration - current_water`.  Fails when the
    /// recipe already holds more water than the hydration asks for.
    pub fn missing_water(&self) -> (r: Result<Gram, Error>)
        requires
            self.wf(),
            total_sum(self.ingredients@) <= u64::MAX,
        ensures
            r is Ok <==> water_sum(self.ingredients@) <= self.water_target(),
            r matches Ok(g) ==> g@ == self.water_target() - water_sum(self.ingredients@),
            r matches Err(e) ==> e == Error::NegativeMass(
                (Gram(self.water_target() as u64)),
                (Gram(water_sum(self.ingredients@) as u64)),
            ),
    {
        proof {
            self.lemma_water_target_bound();
            assert(pow10(0) == 1);
        }
        let target = self.total_mass.times_ratio(self.hydration);
        let current = self.water();
        target.minus(current)
    }

    /// If the requested hydration is not reached, adds the missing water as
    /// an ingredient; if the hydration is already met or exceeded, changes
    /// nothing.
    pub fn add_missing_water(self) -> (r: Recipe)
        requires
            self.wf(),
            total_sum(self.ingredients@) <= u64::MAX,
        ensures
            r.total_mass == self.total_mass,
            r.hydration == self.hydration,
            r.wf(),
            water_sum(self.ingredients@) < self.water_target() ==> r.ingredients@
                == self.ingredients@.push(
                Ingredient::Water(
                    (Water {
                        mass: Gram(
                            (self.water_target() - water_sum(self.ingredients@)) as u64,
                        ),
                    }),
                ),
            ),
            water_sum(self.ingredients@) >= self.water_target() ==> r.ingredients@
                == self.ingredients@,
    {
        let to_add = match self.missing_water() {
            Ok(g) => g,
            Err(_) => {
                return self;
            },
        };
        if to_add.0 > 0 {
            let mut r = self;
            r.ingredients.push(Ingredient::Water(Water { mass: to_add }));
            r
        } else {
            self
        }
    }

    /// Adds a named enrichment declared as a salt-range percentage of the
    /// total flour mass; with no percentage given, changes nothing.
    pub fn add_generic_enrichment(self, name: String, ratio: Option<SaltPercentage>) -> (r:
        Recipe)
        requires
            self.wf(),
            ratio matches Some(p) ==> p.valid(),
        ensures
            r.total_mass == self.total_mass,
            r.hydration == self.hydration,
            r.wf(),
            ratio matches Some(p) ==> r.ingredients@ == self.ingredients@.push(
                Ingredient::Salt(
                    (Enrichment { name, total_mass: self.total_mass, ratio: p }),
                ),
            ),
            ratio is None ==> r.ingredients@ == self.ingredients@,
    {
        match ratio {
            Option::Some(p) => {
                proof {
                    reveal_with_fuel(pow10, 3);
                    lemma_scale_round_le(self.total_mass@, p.0 as int, 1000);
                }
                let e = Enrichment::new(name, &self.total_mass, p);
                let mut r = self;
                r.ingredients.push(Ingredient::Salt(e));
                r
            },
            Option::None => self,
        }
    }

    /// Adds salt, declared as a salt-range percentage of the total flour.
    pub fn add_salt(self, ratio: Option<SaltPercentage>) -> (r: Recipe)
        requires
            self.wf(),
            ratio matches Some(p) ==> p.valid(),
        ensures
            r.total_mass == self.total_mass,
            r.hydration == self.hydration,
            r.wf(),
            ratio matches Some(p) ==> r.ingredients@.len() == self.ingredients@.len() + 1
                && (match r.ingredients@.last() {
                Ingredient::Salt(e) => e.name@ == "SALT"@ && e.total_mass == self.total_mass
                    && e.ratio == p,
                _ => false,
            }) && (forall|j: int| 0 <= j < self.ingredients@.len() ==> r.ingredients@[j]
                == self.ingredients@[j]),
            ratio is None ==> r.ingredients@ == self.ingredients@,
    {
        let name = String::from_str("SALT");
        self.add_generic_enrichment(name, ratio)
    }

    /// Splits a flour descriptor `<name>:<integer percent>` into the name
    /// and the percentage.
    pub fn extract_flour_desc(desc: &String) -> (r: Result<(String, u64), Error>)
        ensures
            r is Ok <==> parse_flour_desc(desc@) is Some,
            r matches Ok(p) ==> (match parse_flour_desc(desc@) {
                Option::Some(q) => p.0@ == q.0 && p.1 == q.1,
                Option::None => false,
            }),
            r matches Err(e) ==> e.is_invalid_flour_arg(desc@),
    {
        let parts = match split_once_at(desc.as_str(), ':') {
            Option::None => {
                return Err(Error::InvalidFlourArg(desc.clone()));
            },
            Option::Some(p) => p,
        };
        let (name, ratio_text) = parts;
        let v = match parse_number(ratio_text.as_str()) {
            Option::None => {
                return Err(Error::InvalidFlourArg(desc.clone()));
            },
            Option::Some(v) => v,
        };
        if v > 10_000_000 {
            return Err(Error::InvalidFlourArg(desc.clone()));
        }
        Ok((name, v))
    }

    /// Builds the flour mix from a list of `<name>:<integer percent>`
    /// descriptors, in order.  Succeeds exactly when every descriptor
    /// parses, every share lies between 1% and 100%, and no share pushes
    /// the cumulative sum over 100%; the first offending descriptor
    /// determines the error.
    #[verifier::loop_isolation(false)]
    pub fn add_flour(&self, flours: Vec<String>) -> (r: Result<Flours, Error>)
        requires
            self.wf(),
        ensures
            r is Ok <==> (forall|i: int| 0 <= i < flours@.len() ==> flour_desc_step_ok(
                descs(flours@),
                i,
            )),
            r matches Ok(f) ==> {
                &&& f.wf()
                &&& f.total_mass == self.total_mass
                &&& f.mix@.len() == flours@.len()
                &&& mix_matches_descs(descs(flours@), f.mix@, flours@.len() as int)
                &&& sum_ratios(f.mix@) == sum_parsed(descs(flours@))
            },
            r matches Err(e) ==> exists|k: int|
                0 <= k < flours@.len() && !flour_desc_step_ok(descs(flours@), k) && (forall|
                    i: int,
                |
                    0 <= i < k ==> flour_desc_step_ok(descs(flours@), i)) && (match
                parse_flour_desc(#[trigger] descs(flours@)[k]) {
                    Option::None => e.is_invalid_flour_arg(descs(flours@)[k]),
                    Option::Some(p) => if !(1 <= p.1 <= 100) {
                        e == Error::InvalidPercentage(p.1 as usize, 1, 100)
                    } else {
                        e == Error::InsufficientFLourRatios(
                            (Percent(sum_parsed(descs(flours@).take(k + 1)) as usize)),
                        )
                    },
                }),
    {
        let ghost ds = descs(flours@);
        proof {
            assert(ds.take(0) =~= Seq::<Seq<char>>::empty());
        }
        let mut result = Flours::new(&self.total_mass);
        let mut i: usize = 0;
        while i < flours.len()
            invariant
                i <= flours@.len(),
                result.wf(),
                result.total_mass == self.total_mass,
                result.mix@.len() == i,
                sum_ratios(result.mix@) == sum_parsed(ds.take(i as int)),
                forall|j: int| 0 <= j < i ==> flour_desc_step_ok(ds, j),
                mix_matches_descs(ds, result.mix@, i as int),
            decreases flours@.len() - i,
        {
            let desc = &flours[i];
            proof {
                assert(ds[i as int] == desc@);
                lemma_sum_parsed_take_step(ds, i as int);
            }
            let parsed = match Self::extract_flour_desc(desc) {
                Err(e) => {
                    proof {
                        assert(!flour_desc_step_ok(ds, i as int));
                    }
                    return Err(e);
                },
                Ok(p) => p,
            };
            let (name, v) = parsed;
            let ghost prev = result;
            let ghost nview = name@;
            let added = match result.add_flour(name, Percent(v as usize)) {
                Err(e) => {
                    proof {
                        assert(!flour_desc_step_ok(ds, i as int));
                    }
                    return Err(e);
                },
                Ok(f) => f,
            };
            result = added;
            proof {
                let n1: int = i + 1;
                let mix1 = result.mix@;
                assert forall|j: int| 0 <= j < n1 implies flour_desc_parses(#[trigger] ds[j]) by {
                    if j < i {
                        assert(prev.mix@[j].name@ == flour_desc_name(ds[j]));
                    }
                }
                assert forall|j: int|
                    0 <= j < n1 implies (#[trigger] mix1[j]).name@ == flour_desc_name(ds[j]) by {
                    if j < i {
                        assert(mix1[j] == prev.mix@[j]);
                    } else {
                        assert(mix1[j].name@ == nview);
                    }
                }
                assert forall|j: int|
                    0 <= j < n1 implies (#[trigger] mix1[j]).ratio.0 == flour_desc_ratio(
                    ds[j],
                ) by {
                    if j < i {
                        assert(mix1[j] == prev.mix@[j]);
                    }
                }
                assert forall|j: int| 0 <= j < n1 implies (#[trigger] mix1[j]).repurposed@
                    == 0 by {
                    if j < i {
                        assert(mix1[j] == prev.mix@[j]);
                    }
                }
                assert(mix_matches_descs(ds, mix1, n1));
            }
            i = i + 1;
        }
        proof {
            assert(ds.take(i as int) =~= ds);
        }
        Ok(result)
    }

    /// Builds each preferment descriptor through the registry, deducts its
    /// flour demand from the mix, and records the preferment as an
    /// ingredient.  Succeeds exactly when every descriptor builds and the
    /// combined demand stays within the flour the mix holds.
    #[verifier::loop_isolation(false)]
    pub fn add_preferment(&mut self, preferment: Vec<String>, flours: Flours) -> (r: Result<
        Flours,
        Error,
    >)
        requires
            old(self).wf(),
            old(self).total_mass@ * 6 <= u64::MAX,
            flours.wf(),
            flours.complete(),
        ensures
            final(self).total_mass == old(self).total_mass,
            final(self).hydration == old(self).hydration,
            final(self).wf(),
            final(self).ingredients@.len() >= old(self).ingredients@.len(),
            forall|j: int| 0 <= j < old(self).ingredients@.len() ==> final(self).ingredients@[j]
                == old(self).ingredients@[j],
            forall|j: int|
                old(self).ingredients@.len() <= j < final(self).ingredients@.len()
                    ==> pref_matches_desc(
                    #[trigger] final(self).ingredients@[j],
                    descs(preferment@)[j - old(self).ingredients@.len()],
                    old(self).total_mass@,
                ),
            r is Ok <==> (forall|i: int| 0 <= i < preferment@.len() ==> pref_desc_ok(
                #[trigger] descs(preferment@)[i],
            )) && sum_demands(descs(preferment@), old(self).total_mass@) <= sum_flour(
                flours.mix@,
            ),
            r matches Ok(f) ==> {
                &&& f.wf()
                &&& f.complete()
                &&& f.total_mass == flours.total_mass
                &&& final(self).ingredients@.len() == old(self).ingredients@.len()
                    + preferment@.len()
                &&& sum_flour(f.mix@) == sum_flour(flours.mix@) - sum_demands(
                    descs(preferment@),
                    old(self).total_mass@,
                )
            },
            r matches Err(e) ==> exists|k: int|
                0 <= k < preferment@.len() && (forall|i: int|
                    0 <= i < k ==> pref_desc_ok(#[trigger] descs(preferment@)[i]))
                    && sum_demands(descs(preferment@).take(k), old(self).total_mass@)
                    <= sum_flour(flours.mix@) && (if !pref_desc_ok(
                    #[trigger] descs(preferment@)[k],
                ) {
                    e.is_invalid_preferment_args(descs(preferment@)[k])
                } else {
                    e == Error::InsufficientFlour(
                        (Gram(
                            (sum_flour(flours.mix@) - sum_demands(
                                descs(preferment@).take(k),
                                old(self).total_mass@,
                            )) as u64,
                        )),
                        (Gram(pref_desc_demand(descs(preferment@)[k], old(self).total_mass@)
                            as u64)),
                    )
                }),
    {
        let ghost t = old(self).total_mass@;
        let ghost ds = descs(preferment@);
        proof {
            assert(ds.take(0) =~= Seq::<Seq<char>>::empty());
        }
        proof {
            flours.lemma_flour_bound();
        }
        let mut cur = flours;
        let mut i: usize = 0;
        while i < preferment.len()
            invariant
                i <= preferment@.len(),
                cur.wf(),
                cur.complete(),
                cur.total_mass == flours.total_mass,
                sum_flour(cur.mix@) == sum_flour(flours.mix@) - sum_demands(
                    ds.take(i as int),
                    t,
                ),
                sum_demands(ds.take(i as int), t) <= sum_flour(flours.mix@),
                forall|j: int| 0 <= j < i ==> pref_desc_ok(#[trigger] ds[j]),
                self.total_mass == old(self).total_mass,
                self.hydration == old(self).hydration,
                self.wf(),
                self.ingredients@.len() == old(self).ingredients@.len() + i,
                forall|j: int| 0 <= j < old(self).ingredients@.len() ==> self.ingredients@[j]
                    == old(self).ingredients@[j],
                forall|j: int|
                    old(self).ingredients@.len() <= j < self.ingredients@.len()
                        ==> pref_matches_desc(
                        #[trigger] self.ingredients@[j],
                        ds[j - old(self).ingredients@.len()],
                        t,
                    ),
            decreases preferment@.len() - i,
        {
            let desc = &preferment[i];
            proof {
                assert(ds[i as int] == desc@);
                lemma_sum_demands_take_step(ds, t, i as int);
            }
            let ing = match Builder::get(desc, &self.total_mass) {
                Err(_) => {
                    proof {
                        assert(!pref_desc_ok(ds[i as int]));
                    }
                    return Err(Error::InvalidPrefermentArgs(desc.clone()));
                },
                Ok(ing) => ing,
            };
            let repurposed = match cur.repurpose(&ing) {
                Err(e) => {
                    proof {
                        lemma_sum_demands_prefix_le(ds, t, i + 1);
                        assert(pref_desc_ok(ds[i as int]));
                        assert(ing.flour_spec() == pref_desc_demand(ds[i as int], t));
                    }
                    return Err(e);
                },
                Ok(f) => f,
            };
            cur = repurposed;
            self.ingredients.push(ing);
            i = i + 1;
        }
        proof {
            assert(ds.take(i as int) =~= ds);
        }
        Ok(cur)
    }

    /// Adds an enrichment from a command descriptor: `<name>%<ratio>`
    /// declares it as a percentage of the total flour, `<name>:<mass>` by
    /// mass in grams (from which the percentage is derived).  Ratios above
    /// 100% are meaningful and accepted throughout the ratio range; only a
    /// descriptor that does not parse, or whose ratio or contributed mass
    /// cannot be represented, is rejected.
    pub fn add_enrichment_from_cmd(self, desc: &String) -> (r: Result<Recipe, Error>)
        requires
            self.wf(),
        ensures
            r is Ok <==> enrichment_desc_ok(desc@, self.total_mass@),
            r matches Err(e) ==> e.is_invalid_enrichment_arg(desc@),
            r matches Ok(rec) ==> rec.wf() && rec.total_mass == self.total_mass
                && rec.hydration == self.hydration && rec.ingredients@.len()
                == self.ingredients@.len() + 1 && (forall|j: int|
                0 <= j < self.ingredients@.len() ==> rec.ingredients@[j]
                    == self.ingredients@[j]) && (match rec.ingredients@.last() {
                Ingredient::Enrichment(e) => e.total_mass == self.total_mass && (match
                split_first(desc@, '%') {
                    Option::Some(p) => e.name@ == p.0 && e.ratio.0 == digits_val(p.1),
                    Option::None => match split_first(desc@, ':') {
                        Option::Some(p) => e.name@ == p.0 && e.ratio.0 == digits_val(p.1) * 100
                            * 100 / self.total_mass@,
                        Option::None => false,
                    },
                }),
                _ => false,
            }),
    {
        if let Option::Some(parts) = split_once_at(desc.as_str(), '%') {
            let (name, ratio_text) = parts;
            let v = match parse_number(ratio_text.as_str()) {
                Option::None => {
                    return Err(Error::InvalidEnrichmentArg(desc.clone()));
                },
                Option::Some(v) => v,
            };
            if v > 10_000_000 {
                return Err(Error::InvalidEnrichmentArg(desc.clone()));
            }
            proof {
                lemma_mul_inequality(self.total_mass@, u64::MAX as int, v as int);
                lemma_mul_inequality(v as int, 10_000_000, u64::MAX as int);
                lemma_mul_is_commutative(u64::MAX as int, v as int);
            }
            let num: u128 = (self.total_mass.0 as u128) * (v as u128);
            let scaled: u128 = (num + 50) / 100;
            if scaled > ((u64::MAX - 100) as u128) {
                return Err(Error::InvalidEnrichmentArg(desc.clone()));
            }
            proof {
                assert(pow10(0) == 1);
            }
            let e = Enrichment::<0, 10_000_000, 0>::new(
                name,
                &self.total_mass,
                Percent(v as usize),
            );
            let mut r = self;
            r.ingredients.push(Ingredient::Enrichment(e));
            Ok(r)
        } else if let Option::Some(parts) = split_once_at(desc.as_str(), ':') {
            let (name, mass_text) = parts;
            let v = match parse_number(mass_text.as_str()) {
                Option::None => {
                    return Err(Error::InvalidEnrichmentArg(desc.clone()));
                },
                Option::Some(v) => v,
            };
            proof {
                vstd::arithmetic::div_mod::lemma_fundamental_div_mod(u64::MAX as int, 100);
                vstd::arithmetic::div_mod::lemma_mod_bound(u64::MAX as int, 100);
            }
            if v > u64::MAX / 100 {
                return Err(Error::InvalidEnrichmentArg(desc.clone()));
            }
            if self.total_mass.0 == 0 {
                return Err(Error::InvalidEnrichmentArg(desc.clone()));
            }
            let mass = Gram(v * 100);
            proof {
                lemma_mul_inequality(mass@, u64::MAX as int, 100);
                lemma_div_pos_is_pos(mass@ * 100, self.total_mass@);
            }
            let q: u128 = ((mass.0 as u128) * 100) / (self.total_mass.0 as u128);
            if q > 10_000_000 {
                return Err(Error::InvalidEnrichmentArg(desc.clone()));
            }
            proof {
                lemma_mul_inequality(self.total_mass@, u64::MAX as int, q as int);
                lemma_mul_inequality(q as int, 10_000_000, u64::MAX as int);
                lemma_mul_is_commutative(u64::MAX as int, q as int);
            }
            let num: u128 = (self.total_mass.0 as u128) * q;
            let scaled: u128 = (num + 50) / 100;
            if scaled > ((u64::MAX - 100) as u128) {
                return Err(Error::InvalidEnrichmentArg(desc.clone()));
            }
            proof {
                assert(pow10(0) == 1);
            }
            let e = Enrichment::<0, 10_000_000, 0>::new_by_mass(name, &self.total_mass, mass);
            let mut r = self;
            r.ingredients.push(Ingredient::Enrichment(e));
            Ok(r)
        } else {
            Err(Error::InvalidEnrichmentArg(desc.clone()))
        }
    }

    /// Adds every enrichment descriptor in turn.  Succeeds exactly when
    /// every descriptor is acceptable; the first offending descriptor
    /// aborts with its error.
    #[verifier::loop_isolation(false)]
    pub fn add_enrichments(self, enrichments: Vec<String>) -> (r: Result<Recipe, Error>)
        requires
            self.wf(),
        ensures
            r is Ok <==> (forall|i: int| 0 <= i < enrichments@.len() ==> enrichment_desc_ok(
                #[trigger] descs(enrichments@)[i],
                self.total_mass@,
            )),
            r matches Ok(rec) ==> rec.wf() && rec.total_mass == self.total_mass
                && rec.hydration == self.hydration && rec.ingredients@.len()
                == self.ingredients@.len() + enrichments@.len(),
            r matches Err(e) ==> exists|k: int|
                0 <= k < enrichments@.len() && !enrichment_desc_ok(
                    #[trigger] descs(enrichments@)[k],
                    self.total_mass@,
                ) && (forall|i: int| 0 <= i < k ==> enrichment_desc_ok(
                    descs(enrichments@)[i],
                    self.total_mass@,
                )) && e.is_invalid_enrichment_arg(descs(enrichments@)[k]),
    {
        let ghost ds = descs(enrichments@);
        let mut r = self;
        let mut i: usize = 0;
        while i < enrichments.len()
            invariant
                i <= enrichments@.len(),
                r.wf(),
                r.total_mass == self.total_mass,
                r.hydration == self.hydration,
                r.ingredients@.len() == self.ingredients@.len() + i,
                forall|j: int| 0 <= j < i ==> enrichment_desc_ok(
                    #[trigger] ds[j],
                    self.total_mass@,
                ),
            decreases enrichments@.len() - i,
        {
            let desc = &enrichments[i];
            proof {
                assert(ds[i as int] == desc@);
            }
            r = match r.add_enrichment_from_cmd(desc) {
                Err(e) => {
                    return Err(e);
                },
                Ok(rec) => rec,
            };
            i = i + 1;
        }
        Ok(r)
    }
}

} // verus!

use vstd::prelude::*;

use crate::common::mass::{
    lemma_scale_round_exact, lemma_scale_round_le, scale_round, Gram, Ratio,
};
use crate::common::percent::{pow10, Percent};
use crate::error::Error;
use crate::ingredient::ingredient::Ingredient;
use vstd::arithmetic::div_mod::{
    lemma_div_is_ordered, lemma_div_multiples_vanish, lemma_div_pos_is_pos,
    lemma_fundamental_div_mod, lemma_hoist_over_denominator, lemma_mod_bound,
};
use vstd::arithmetic::mul::{
    lemma_mul_inequality, lemma_mul_is_commutative, lemma_mul_is_distributive_add,
    lemma_mul_nonnegative,
};
use vstd::math::{max, min};

verus! {

/// One named flour fraction of a mix.
///
/// The fraction owns a copy of the recipe's total flour mass, its declared
/// share of that total, and the mass that preferments have drawn from its
/// share so far.
#[derive(Debug, Clone)]
pub struct Flour {
    /// Flour designation; anything goes, preferably unique per recipe.
    pub name: String,
    /// The part, in percent, that this flour takes of the total flour.
    pub ratio: Ratio,
    /// Flour that should not be added any more, because preferments use it.
    pub repurposed: Gram,
    /// The recipe's total flour mass, shared read-only by every fraction.
    pub total_mass: Gram,
}

impl Flour {
    /// The fraction's full share of the total flour, before any deduction.
    pub open spec fn gross_spec(self) -> int {
        scale_round(self.total_mass@, self.ratio.0 as int, 100)
    }

    /// The flour still to be added: the gross share minus what preferments
    /// have consumed.
    pub open spec fn flour_spec(self) -> int {
        self.gross_spec() - self.repurposed@
    }

    /// A fraction's share is a nonzero part of the whole, and what was
    /// repurposed never exceeds the share.
    pub open spec fn inv(self) -> bool {
        &&& 1 <= self.ratio.0 <= 100
        &&& self.repurposed@ <= self.gross_spec()
    }

    fn new(name: String, ratio: Ratio, total_mass: &Gram) -> (r: Flour)
        ensures
            r.name == name,
            r.ratio == ratio,
            r.repurposed@ == 0,
            r.total_mass == *total_mass,
    {
        Flour { name, ratio, repurposed: Gram::zero(), total_mass: *total_mass }
    }

    /// A share is never larger than the total it is a share of.
    pub proof fn lemma_gross_bounds(self)
        requires
            self.ratio.0 <= 100,
        ensures
            0 <= self.gross_spec() <= self.total_mass@,
    {
        lemma_scale_round_le(self.total_mass@, self.ratio.0 as int, 100);
        lemma_mul_nonnegative(self.total_mass@, self.ratio.0 as int);
        lemma_div_pos_is_pos(self.total_mass@ * self.ratio.0 + 50, 100);
    }

    /// The gross content of the flour in the recipe, including the part
    /// sitting in preferments.
    pub fn gross_flour(&self) -> (r: Gram)
        requires
            self.ratio.0 <= 100,
        ensures
            r@ == self.gross_spec(),
    {
        proof {
            self.lemma_gross_bounds();
            assert(pow10(0) == 1);
        }
        self.total_mass.times_ratio(self.ratio)
    }

    /// Only the part of the share that is still to be actively added.
    pub fn flour(&self) -> (r: Gram)
        requires
            self.inv(),
        ensures
            r@ == self.flour_spec(),
    {
        self.gross_flour().minus_exact(self.repurposed)
    }
}

/// Sum of the declared shares of a sequence of fractions, in percent.
pub open spec fn sum_ratios(s: Seq<Flour>) -> int
    decreases s.len(),
{
    if s.len() == 0 {
        0
    } else {
        sum_ratios(s.drop_last()) + s.last().ratio.0
    }
}

/// Sum of the gross shares of a sequence of fractions.
pub open spec fn sum_gross(s: Seq<Flour>) -> int
    decreases s.len(),
{
    if s.len() == 0 {
        0
    } else {
        sum_gross(s.drop_last()) + s.last().gross_spec()
    }
}

/// Sum of the flour still to be added over a sequence of fractions.
pub open spec fn sum_flour(s: Seq<Flour>) -> int
    decreases s.len(),
{
    if s.len() == 0 {
        0
    } else {
        sum_flour(s.drop_last()) + s.last().flour_spec()
    }
}

/// How much flour a repurpose operation with total demand `d` draws from
/// fraction `j`: demand is served in insertion order, so fraction `j` serves
/// whatever demand the fractions before it have left over, capped by its own
/// available flour.
pub open spec fn used_spec(s: Seq<Flour>, d: int, j: int) -> int {
    min(s[j].flour_spec(), max(0, d - sum_flour(s.take(j))))
}

proof fn lemma_sum_ratios_take_step(s: Seq<Flour>, i: int)
    requires
        0 <= i < s.len(),
    ensures
        sum_ratios(s.take(i + 1)) == sum_ratios(s.take(i)) + s[i].ratio.0,
{
    assert(s.take(i + 1).drop_last() =~= s.take(i));
    assert(s.take(i + 1).last() == s[i]);
}

proof fn lemma_sum_flour_take_step(s: Seq<Flour>, i: int)
    requires
        0 <= i < s.len(),
    ensures
        sum_flour(s.take(i + 1)) == sum_flour(s.take(i)) + s[i].flour_spec(),
{
    assert(s.take(i + 1).drop_last() =~= s.take(i));
    assert(s.take(i + 1).last() == s[i]);
}

/// All the summed quantities are nonnegative, fraction by fraction.
proof fn lemma_sums_nonneg(s: Seq<Flour>)
    requires
        forall|i: int| 0 <= i < s.len() ==> (#[trigger] s[i]).inv(),
    ensures
        0 <= sum_ratios(s),
        0 <= sum_flour(s) <= sum_gross(s),
        s.len() <= sum_ratios(s),
    decreases s.len(),
{
    if s.len() > 0 {
        lemma_sums_nonneg(s.drop_last());
        s.last().lemma_gross_bounds();
    }
}

/// A prefix sums to no more than the whole sequence.
proof fn lemma_sum_flour_prefix_le(s: Seq<Flour>, i: int)
    requires
        0 <= i <= s.len(),
        forall|j: int| 0 <= j < s.len() ==> (#[trigger] s[j]).inv(),
    ensures
        sum_flour(s.take(i)) <= sum_flour(s),
        sum_ratios(s.take(i)) <= sum_ratios(s),
    decreases s.len() - i,
{
    if i == s.len() {
        assert(s.take(i) =~= s);
    } else {
        lemma_sum_flour_take_step(s, i);
        lemma_sum_ratios_take_step(s, i);
        assert(s[i].inv());
        s[i].lemma_gross_bounds();
        lemma_sum_flour_prefix_le(s, i + 1);
    }
}

/// Integer division is superadditive: `a/d + b/d <= (a+b)/d`.
proof fn lemma_div_sum_le(a: int, b: int, d: int)
    requires
        0 <= a,
        0 <= b,
        0 < d,
    ensures
        a / d + b / d <= (a + b) / d,
{
    let qa = a / d;
    let qb = b / d;
    lemma_fundamental_div_mod(a, d);
    lemma_fundamental_div_mod(b, d);
    lemma_mod_bound(a, d);
    lemma_mod_bound(b, d);
    lemma_mul_is_distributive_add(d, qa, qb);
    assert(d * (qa + qb) <= a + b);
    lemma_div_is_ordered(d * (qa + qb), a + b, d);
    lemma_div_multiples_vanish(qa + qb, d);
}

/// A rounded share overshoots the unrounded one by less than a full unit.
proof fn lemma_gross_le_div_plus_one(f: Flour)
    requires
        f.ratio.0 >= 0,
    ensures
        f.gross_spec() <= f.total_mass@ * f.ratio.0 / 100 + 1,
{
    let p = f.total_mass@ * f.ratio.0;
    lemma_div_is_ordered(p + 50, p + 100, 100);
    lemma_hoist_over_denominator(p, 1, 100);
}

/// The gross shares together stay within the total mass, up to one rounding
/// unit per fraction.
proof fn lemma_sum_gross_le(s: Seq<Flour>, t: int)
    requires
        0 <= t,
        forall|i: int| 0 <= i < s.len() ==> (#[trigger] s[i]).inv() && s[i].total_mass@ == t,
    ensures
        sum_gross(s) <= t * sum_ratios(s) / 100 + s.len(),
    decreases s.len(),
{
    if s.len() > 0 {
        let tail = s.drop_last();
        let f = s.last();
        lemma_sum_gross_le(tail, t);
        lemma_sums_nonneg(tail);
        lemma_gross_le_div_plus_one(f);
        lemma_mul_nonnegative(t, sum_ratios(tail));
        lemma_mul_nonnegative(t, f.ratio.0 as int);
        lemma_div_sum_le(t * sum_ratios(tail), t * f.ratio.0, 100);
        lemma_mul_is_distributive_add(t, sum_ratios(tail), f.ratio.0 as int);
    }
}

/// With shares summing to at most 100%, the gross shares together stay
/// within the total mass plus one rounding unit per fraction.
proof fn lemma_sum_gross_le_total(s: Seq<Flour>, t: int)
    requires
        0 <= t,
        sum_ratios(s) <= 100,
        forall|i: int| 0 <= i < s.len() ==> (#[trigger] s[i]).inv() && s[i].total_mass@ == t,
    ensures
        sum_gross(s) <= t + s.len(),
{
    lemma_sum_gross_le(s, t);
    lemma_sums_nonneg(s);
    lemma_mul_inequality(sum_ratios(s), 100, t);
    lemma_mul_is_commutative(sum_ratios(s), t);
    lemma_mul_is_commutative(100, t);
    lemma_div_is_ordered(t * sum_ratios(s), t * 100, 100);
    lemma_mul_is_commutative(t, 100);
    lemma_div_multiples_vanish(t, 100);
}

/// On a whole-gram total, every share is exact and the shares add up with no
/// rounding at all.
proof fn lemma_sum_gross_exact(s: Seq<Flour>, t: int)
    requires
        0 <= t,
        t % 100 == 0,
        forall|i: int| 0 <= i < s.len() ==> (#[trigger] s[i]).inv() && s[i].total_mass@ == t,
    ensures
        sum_gross(s) == (t / 100) * sum_ratios(s),
    decreases s.len(),
{
    if s.len() == 0 {
        assert((t / 100) * 0 == 0) by (nonlinear_arith);
    } else {
        let tail = s.drop_last();
        let f = s.last();
        lemma_sum_gross_exact(tail, t);
        lemma_scale_round_exact(t, f.ratio.0 as int, 100);
        lemma_mul_is_distributive_add(t / 100, sum_ratios(tail), f.ratio.0 as int);
    }
}

/// When nothing was repurposed yet, the flour still to be added is the whole
/// gross share.
proof fn lemma_sum_flour_eq_gross_when_fresh(s: Seq<Flour>)
    requires
        forall|i: int| 0 <= i < s.len() ==> (#[trigger] s[i]).repurposed@ == 0,
    ensures
        sum_flour(s) == sum_gross(s),
    decreases s.len(),
{
    if s.len() > 0 {
        lemma_sum_flour_eq_gross_when_fresh(s.drop_last());
    }
}

/// Fractions that agree on ratio and total mass agree on the summed ratios
/// and gross shares.
proof fn lemma_sum_same_shape(s1: Seq<Flour>, s2: Seq<Flour>)
    requires
        s1.len() == s2.len(),
        forall|j: int| 0 <= j < s1.len() ==> (#[trigger] s2[j]).ratio == s1[j].ratio
            && s2[j].total_mass == s1[j].total_mass,
    ensures
        sum_ratios(s2) == sum_ratios(s1),
        sum_gross(s2) == sum_gross(s1),
    decreases s1.len(),
{
    if s1.len() > 0 {
        lemma_sum_same_shape(s1.drop_last(), s2.drop_last());
    }
}

/// Serving a demand of `d` in insertion order consumes exactly
/// `min(d, sum_flour)` from the mix as a whole.
proof fn lemma_consume_sum(s1: Seq<Flour>, s2: Seq<Flour>, d: int)
    requires
        0 <= d,
        s1.len() == s2.len(),
        forall|j: int| 0 <= j < s1.len() ==> (#[trigger] s1[j]).inv(),
        forall|j: int| 0 <= j < s1.len() ==> (#[trigger] s2[j]).ratio == s1[j].ratio
            && s2[j].total_mass == s1[j].total_mass
            && s2[j].repurposed@ == s1[j].repurposed@ + used_spec(s1, d, j),
    ensures
        sum_flour(s2) == sum_flour(s1) - min(d, sum_flour(s1)),
    decreases s1.len(),
{
    if s1.len() == 0 {
    } else {
        let n = s1.len() as int;
        let t1 = s1.drop_last();
        let t2 = s2.drop_last();
        assert forall|j: int| 0 <= j < t1.len() implies (#[trigger] t2[j]).ratio == t1[j].ratio
            && t2[j].total_mass == t1[j].total_mass
            && t2[j].repurposed@ == t1[j].repurposed@ + used_spec(t1, d, j) by {
            assert(t1.take(j) =~= s1.take(j));
            assert(used_spec(t1, d, j) == used_spec(s1, d, j));
        }
        lemma_consume_sum(t1, t2, d);
        lemma_sums_nonneg(t1);
        assert(s1.take(n - 1) =~= t1);
        let fl = s1.last().flour_spec();
        let sp = sum_flour(t1);
        assert(s1.last().inv());
        s1.last().lemma_gross_bounds();
        assert(fl >= 0);
        assert(s2.last().flour_spec() == fl - min(fl, max(0, d - sp)));
        assert(min(d, sp) + min(fl, max(0, d - sp)) == min(d, sp + fl));
    }
}

/// Sum of a sequence of integer parts.
pub open spec fn parts_sum(s: Seq<int>) -> int
    decreases s.len(),
{
    if s.len() == 0 {
        0
    } else {
        parts_sum(s.drop_last()) + s.last()
    }
}

/// Partition law: for positive integer parts summing to at most 100, no
/// prefix overshoots, so a mix built by adding the parts in order passes
/// every acceptance check of [`Flours::add_flour`] (each part lies in
/// `1..=100` and never pushes the cumulative sum over 100%).  The finished
/// mix carries exactly the parts' sum, which [`Flours::total_ratio`] then
/// reports: success for a partition of 100, and the actual sum in the
/// error for anything less.
pub proof fn lemma_partition_builds(parts: Seq<int>)
    requires
        forall|i: int| 0 <= i < parts.len() ==> 1 <= #[trigger] parts[i],
        parts_sum(parts) <= 100,
    ensures
        forall|k: int| 0 <= k < parts.len() ==> 1 <= #[trigger] parts[k] <= 100 && parts_sum(
            parts.take(k),
        ) + parts[k] <= 100,
{
    assert forall|k: int|
        0 <= k < parts.len() implies 1 <= #[trigger] parts[k] <= 100 && parts_sum(parts.take(k))
        + parts[k] <= 100 by {
        lemma_parts_sum_take_step(parts, k);
        lemma_parts_prefix_le(parts, k + 1);
        lemma_parts_nonneg(parts.take(k));
    }
}

proof fn lemma_parts_sum_take_step(s: Seq<int>, i: int)
    requires
        0 <= i < s.len(),
    ensures
        parts_sum(s.take(i + 1)) == parts_sum(s.take(i)) + s[i],
{
    assert(s.take(i + 1).drop_last() =~= s.take(i));
    assert(s.take(i + 1).last() == s[i]);
}

proof fn lemma_parts_nonneg(s: Seq<int>)
    requires
        forall|i: int| 0 <= i < s.len() ==> 0 <= #[trigger] s[i],
    ensures
        0 <= parts_sum(s),
    decreases s.len(),
{
    if s.len() > 0 {
        lemma_parts_nonneg(s.drop_last());
    }
}

proof fn lemma_parts_prefix_le(s: Seq<int>, i: int)
    requires
        0 <= i <= s.len(),
        forall|j: int| 0 <= j < s.len() ==> 0 <= #[trigger] s[j],
    ensures
        parts_sum(s.take(i)) <= parts_sum(s),
    decreases s.len() - i,
{
    if i == s.len() {
        assert(s.take(i) =~= s);
    } else {
        lemma_parts_sum_take_step(s, i);
        lemma_parts_prefix_le(s, i + 1);
    }
}

/// A flour aggregator: the recipe's flour fractions together with the shared
/// total flour mass, enforcing the sum-to-100% discipline.
#[derive(Debug, Clone)]
pub struct Flours {
    pub total_mass: Gram,
    pub mix: Vec<Flour>,
}

impl Flours {
    /// Every fraction is well formed against the shared total, the declared
    /// shares never exceed 100%, and the total leaves headroom for one
    /// rounding unit per possible fraction.
    pub open spec fn wf(self) -> bool {
        &&& self.total_mass@ + 100 <= u64::MAX
        &&& sum_ratios(self.mix@) <= 100
        &&& forall|i: int| 0 <= i < self.mix@.len() ==> (#[trigger] self.mix@[i]).inv()
            && self.mix@[i].total_mass@ == self.total_mass@
    }

    /// The mix accounts for exactly all of the total flour, which is
    /// required before any repurposing.
    pub open spec fn complete(self) -> bool {
        sum_ratios(self.mix@) == 100
    }

    pub fn new(total_mass: &Gram) -> (r: Flours)
        requires
            total_mass@ + 100 <= u64::MAX,
        ensures
            r.total_mass == *total_mass,
            r.mix@.len() == 0,
            r.wf(),
    {
        Flours { total_mass: *total_mass, mix: Vec::new() }
    }

    /// The sum of the declared shares, in percent.
    #[verifier::loop_isolation(false)]
    fn ratio_sum(&self) -> (s: usize)
        requires
            self.wf(),
        ensures
            s == sum_ratios(self.mix@),
            s <= 100,
    {
        let mut s: usize = 0;
        let mut i: usize = 0;
        proof {
            assert(self.mix@.take(0) =~= Seq::<Flour>::empty());
        }
        while i < self.mix.len()
            invariant
                i <= self.mix@.len(),
                s == sum_ratios(self.mix@.take(i as int)),
            decreases self.mix@.len() - i,
        {
            proof {
                lemma_sum_ratios_take_step(self.mix@, i as int);
                lemma_sum_flour_prefix_le(self.mix@, i + 1);
                lemma_sums_nonneg(self.mix@.take(i + 1));
            }
            s = s + self.mix[i].ratio.0;
            i = i + 1;
        }
        proof {
            assert(self.mix@.take(i as int) =~= self.mix@);
        }
        s
    }

    /// Adds a flour to the mix.  The share must be a nonzero part of the
    /// whole and must not push the declared shares over 100%: a list of
    /// shares summing beyond 100% is rejected at the overshooting addition,
    /// which reports the cumulative sum at that point.
    pub fn add_flour(self, name: String, ratio: Ratio) -> (r: Result<Flours, Error>)
        requires
            self.wf(),
        ensures
            r is Ok <==> 1 <= ratio.0 <= 100 && sum_ratios(self.mix@) + ratio.0 <= 100,
            r matches Ok(f) ==> {
                &&& f.wf()
                &&& f.total_mass == self.total_mass
                &&& f.mix@.len() == self.mix@.len() + 1
                &&& f.mix@[self.mix@.len() as int].name == name
                &&& f.mix@[self.mix@.len() as int].ratio == ratio
                &&& f.mix@[self.mix@.len() as int].repurposed@ == 0
                &&& forall|j: int| 0 <= j < self.mix@.len() ==> f.mix@[j] == self.mix@[j]
                &&& sum_ratios(f.mix@) == sum_ratios(self.mix@) + ratio.0
            },
            !(1 <= ratio.0 <= 100) ==> r == Err::<Flours, Error>(
                Error::InvalidPercentage(ratio.0, 1, 100),
            ),
            1 <= ratio.0 <= 100 && sum_ratios(self.mix@) + ratio.0 > 100 ==> r == Err::<
                Flours,
                Error,
            >(Error::InsufficientFLourRatios(
                (Percent((sum_ratios(self.mix@) + ratio.0) as usize)),
            )),
    {
        if ratio.0 < 1 || ratio.0 > 100 {
            return Err(Error::InvalidPercentage(ratio.0, 1, 100));
        }
        let sum = self.ratio_sum();
        if sum + ratio.0 > 100 {
            return Err(Error::InsufficientFLourRatios(Percent(sum + ratio.0)));
        }
        let flour = Flour::new(name, ratio, &self.total_mass);
        let mut mix = self.mix;
        let ghost old_mix = mix@;
        mix.push(flour);
        proof {
            assert(mix@.drop_last() =~= old_mix);
            flour.lemma_gross_bounds();
        }
        Ok(Flours { total_mass: self.total_mass, mix })
    }

    /// The sum of all flour shares, which must account for exactly 100% of
    /// the total flour before repurposing is permitted; otherwise the actual
    /// sum is reported in the error.
    pub fn total_ratio(&self) -> (r: Result<Ratio, Error>)
        requires
            self.wf(),
        ensures
            r is Ok <==> sum_ratios(self.mix@) == 100,
            r matches Ok(p) ==> p.0 == 100,
            r matches Err(e) ==> e == Error::InsufficientFLourRatios(
                (Percent(sum_ratios(self.mix@) as usize)),
            ),
    {
        proof {
            lemma_sums_nonneg(self.mix@);
        }
        let sum = self.ratio_sum();
        if sum != 100 {
            Err(Error::InsufficientFLourRatios(Percent(sum)))
        } else {
            Ok(Percent(100))
        }
    }

    /// The flour still to be added never exceeds the total mass plus one
    /// rounding unit per fraction.
    pub proof fn lemma_flour_bound(self)
        requires
            self.wf(),
        ensures
            0 <= sum_flour(self.mix@) <= self.total_mass@ + 100,
    {
        lemma_sums_nonneg(self.mix@);
        lemma_sum_gross_le_total(self.mix@, self.total_mass@);
    }

    /// The flour still to be actively added, over all fractions.
    #[verifier::loop_isolation(false)]
    pub fn flour(&self) -> (r: Gram)
        requires
            self.wf(),
        ensures
            r@ == sum_flour(self.mix@),
    {
        proof {
            self.lemma_flour_bound();
            assert(self.mix@.take(0) =~= Seq::<Flour>::empty());
        }
        let mut s: u64 = 0;
        let mut i: usize = 0;
        while i < self.mix.len()
            invariant
                i <= self.mix@.len(),
                s == sum_flour(self.mix@.take(i as int)),
            decreases self.mix@.len() - i,
        {
            proof {
                lemma_sum_flour_take_step(self.mix@, i as int);
                lemma_sum_flour_prefix_le(self.mix@, i + 1);
                lemma_sums_nonneg(self.mix@.take(i + 1));
            }
            let f = self.mix[i].flour();
            s = s + f.0;
            i = i + 1;
        }
        proof {
            assert(self.mix@.take(i as int) =~= self.mix@);
        }
        Gram(s)
    }

    /// Conservation at the start: in a complete mix on a whole-gram total
    /// from which no preferment has drawn yet, the flour still to be added
    /// is exactly the total flour mass.
    pub proof fn lemma_conservation(self)
        requires
            self.wf(),
            self.complete(),
            self.total_mass@ % 100 == 0,
            forall|i: int| 0 <= i < self.mix@.len() ==> (#[trigger] self.mix@[i]).repurposed@
                == 0,
        ensures
            sum_flour(self.mix@) == self.total_mass@,
    {
        let t = self.total_mass@;
        lemma_sum_flour_eq_gross_when_fresh(self.mix@);
        lemma_sum_gross_exact(self.mix@, t);
        lemma_fundamental_div_mod(t, 100);
        lemma_mul_is_commutative(t / 100, 100);
    }

    /// Removes the part of the flour used by a preferment from the flour
    /// still to be added, walking the fractions in insertion order.
    ///
    /// The walk is all-or-nothing: if the demand exceeds the flour that the
    /// mix still has, the operation fails and `self` is left untouched.
    /// A successful call conserves mass exactly: the flour still to be added
    /// drops by exactly the ingredient's flour demand.
    #[verifier::loop_isolation(false)]
    pub fn repurpose(&self, ingredient: &Ingredient) -> (r: Result<Flours, Error>)
        requires
            self.wf(),
            self.complete(),
            ingredient.wf(),
        ensures
            r is Ok <==> ingredient.flour_spec() <= sum_flour(self.mix@),
            r matches Ok(f) ==> {
                &&& f.wf()
                &&& f.complete()
                &&& f.total_mass == self.total_mass
                &&& f.mix@.len() == self.mix@.len()
                &&& forall|j: int| 0 <= j < self.mix@.len() ==> (#[trigger] f.mix@[j]).name
                    == self.mix@[j].name && f.mix@[j].ratio == self.mix@[j].ratio
                    && f.mix@[j].total_mass == self.mix@[j].total_mass
                    && f.mix@[j].repurposed@ == self.mix@[j].repurposed@ + used_spec(
                    self.mix@,
                    ingredient.flour_spec(),
                    j,
                )
                &&& sum_flour(f.mix@) == sum_flour(self.mix@) - ingredient.flour_spec()
            },
            r matches Err(e) ==> e == Error::InsufficientFlour(
                (Gram(sum_flour(self.mix@) as u64)),
                (Gram(ingredient.flour_spec() as u64)),
            ),
    {
        let demand = ingredient.flour();
        let available = self.flour();
        proof {
            self.lemma_flour_bound();
        }
        if available.0 < demand.0 {
            return Err(Error::InsufficientFlour(available, demand));
        }
        let ghost d = demand@;
        let mut q: u64 = demand.0;
        let mut new_mix: Vec<Flour> = Vec::new();
        let mut i: usize = 0;
        proof {
            assert(self.mix@.take(0) =~= Seq::<Flour>::empty());
        }
        while i < self.mix.len()
            invariant
                i <= self.mix@.len(),
                new_mix@.len() == i,
                q == max(0, d - sum_flour(self.mix@.take(i as int))),
                forall|j: int| 0 <= j < i ==> (#[trigger] new_mix@[j]).name == self.mix@[j].name
                    && new_mix@[j].ratio == self.mix@[j].ratio
                    && new_mix@[j].total_mass == self.mix@[j].total_mass
                    && new_mix@[j].repurposed@ == self.mix@[j].repurposed@ + used_spec(
                    self.mix@,
                    d,
                    j,
                ),
            decreases self.mix@.len() - i,
        {
            proof {
                lemma_sum_flour_take_step(self.mix@, i as int);
                lemma_sums_nonneg(self.mix@.take(i as int));
            }
            let f = &self.mix[i];
            proof {
                self.mix@[i as int].lemma_gross_bounds();
            }
            let avail = f.flour();
            let used = if avail.0 < q {
                avail.0
            } else {
                q
            };
            q = q - used;
            new_mix.push(
                Flour {
                    name: f.name.clone(),
                    ratio: f.ratio,
                    repurposed: Gram(f.repurposed.0 + used),
                    total_mass: f.total_mass,
                },
            );
            i = i + 1;
        }
        proof {
            assert(self.mix@.take(i as int) =~= self.mix@);
            assert forall|j: int| 0 <= j < new_mix@.len() implies (#[trigger] new_mix@[j]).inv()
                && new_mix@[j].total_mass@ == self.total_mass@ by {
                assert(self.mix@[j].inv());
            }
            lemma_sum_same_shape(self.mix@, new_mix@);
            lemma_consume_sum(self.mix@, new_mix@, d);
        }
        Ok(Flours { total_mass: self.total_mass, mix: new_mix })
    }
}

} // verus!

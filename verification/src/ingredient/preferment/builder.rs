use vstd::prelude::*;

use crate::common::mass::Gram;
use crate::descriptor::{split_first, split_once_at};
use crate::error::Error;
use crate::ingredient::ingredient::Ingredient;
use crate::ingredient::preferment::starter::{parsed_starter_args, Starter};
use vstd::string::StrSliceExecFns;

verus! {

/// `c` is the letter `l` (given in lower case), ignoring ASCII case.
pub open spec fn lc_eq(c: char, l: char) -> bool {
    c == l || ('A' <= c && c <= 'Z' && c as int + 32 == l as int)
}

/// The registered id of the starter builder.
pub open spec fn starter_id() -> Seq<char> {
    seq!['s', 't', 'a', 'r', 't', 'e', 'r']
}

/// The id selects the starter builder, ignoring ASCII case.
pub open spec fn id_matches_starter(s: Seq<char>) -> bool {
    s.len() == 7 && (forall|i: int| 0 <= i < 7 ==> lc_eq(#[trigger] s[i], starter_id()[i]))
}

fn starter_id_char(i: usize) -> (c: char)
    requires
        i < 7,
    ensures
        c == starter_id()[i as int],
{
    match i {
        0 => 's',
        1 => 't',
        2 => 'a',
        3 => 'r',
        4 => 't',
        5 => 'e',
        _ => 'r',
    }
}

/// Compares an id against the starter builder's id, ignoring ASCII case.
#[verifier::loop_isolation(false)]
fn is_starter_id(id: &str) -> (r: bool)
    ensures
        r == id_matches_starter(id@),
{
    let n = id.unicode_len();
    if n != 7 {
        return false;
    }
    let mut i: usize = 0;
    while i < 7
        invariant
            i <= 7,
            n == id@.len() == 7,
            forall|j: int| 0 <= j < i ==> lc_eq(#[trigger] id@[j], starter_id()[j]),
        decreases 7 - i,
    {
        let c = id.get_char(i);
        let l = starter_id_char(i);
        let cv = c as u32;
        let lv = l as u32;
        if !(cv == lv || (65 <= cv && cv <= 90 && cv + 32 == lv)) {
            proof {
                assert(!lc_eq(id@[i as int], starter_id()[i as int]));
            }
            return false;
        }
        i = i + 1;
    }
    true
}

/// The registry of preferment builders: a closed set of ids, each mapped to
/// the builder that turns the descriptor's argument part into an ingredient.
pub struct Builder {}

impl Builder {
    /// Looks a preferment descriptor `<id>:<args>` up and runs the selected
    /// builder on the argument part.
    pub fn get(desc: &String, total_flour: &Gram) -> (r: Result<Ingredient, Error>)
        requires
            total_flour@ * 6 <= u64::MAX,
        ensures
            match split_first(desc@, ':') {
                None => r matches Err(e) ==> e.is_invalid_preferment_args(desc@),
                Some(ia) => {
                    if !id_matches_starter(ia.0) {
                        r matches Err(e) ==> e.is_invalid_preferment(ia.0)
                    } else {
                        match parsed_starter_args(ia.1) {
                            Some(ph) => {
                                &&& (r is Ok <==> 1 <= ph.0 <= 30 && 50 <= ph.1 <= 500)
                                &&& (r matches Ok(ing) ==> ing matches Ingredient::Preferment(s)
                                    && s.wf() && s.total_flour == *total_flour && s.portion.0
                                    == ph.0 && s.hydration.0 == ph.1)
                                &&& (!(1 <= ph.0 <= 30) ==> r == Err::<Ingredient, Error>(
                                    Error::InvalidPercentage(ph.0 as usize, 1, 30),
                                ))
                                &&& (1 <= ph.0 <= 30 && !(50 <= ph.1 <= 500) ==> r == Err::<
                                    Ingredient,
                                    Error,
                                >(Error::InvalidPercentage(ph.1 as usize, 50, 500)))
                            },
                            None => r matches Err(e) ==> e.is_invalid_starter_args(ia.1),
                        }
                    }
                },
            },
            r is Ok <==> (match split_first(desc@, ':') {
                Some(ia) => id_matches_starter(ia.0) && (match parsed_starter_args(ia.1) {
                    Some(ph) => 1 <= ph.0 <= 30 && 50 <= ph.1 <= 500,
                    None => false,
                }),
                None => false,
            }),
    {
        let parts = match split_once_at(desc.as_str(), ':') {
            Option::None => {
                return Err(Error::InvalidPrefermentArgs(desc.clone()));
            },
            Option::Some(p) => p,
        };
        let (id, args) = parts;
        if !is_starter_id(id.as_str()) {
            return Err(Error::InvalidPreferment(id));
        }
        match Starter::build(args, total_flour) {
            Ok(s) => Ok(Ingredient::Preferment(s)),
            Err(e) => Err(e),
        }
    }
}

} // verus!

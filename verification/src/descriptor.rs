use vstd::prelude::*;

use vstd::arithmetic::div_mod::{lemma_fundamental_div_mod, lemma_mod_bound};
use vstd::string::StrSliceExecFns;

verus! {

/// A decimal digit.
pub open spec fn is_digit(c: char) -> bool {
    '0' <= c && c <= '9'
}

/// The numeric value of a decimal digit.
pub open spec fn digit_val(c: char) -> int {
    c as int - '0' as int
}

/// Every character is a decimal digit.
pub open spec fn all_digits(s: Seq<char>) -> bool {
    forall|i: int| 0 <= i < s.len() ==> is_digit(#[trigger] s[i])
}

/// The number that a string of decimal digits denotes.
pub open spec fn digits_val(s: Seq<char>) -> int
    decreases s.len(),
{
    if s.len() == 0 {
        0
    } else {
        digits_val(s.drop_last()) * 10 + digit_val(s.last())
    }
}

/// `i` is the position of the first occurrence of `sep` in `s`.
pub open spec fn is_first_sep(s: Seq<char>, sep: char, i: int) -> bool {
    0 <= i < s.len() && s[i] == sep && (forall|j: int| 0 <= j < i ==> s[j] != sep)
}

/// `s` contains `sep` somewhere.
pub open spec fn has_sep(s: Seq<char>, sep: char) -> bool {
    exists|i: int| is_first_sep(s, sep, i)
}

/// What splitting `s` at the first occurrence of `sep` yields: the part
/// before the separator and the part after it.
pub open spec fn split_first(s: Seq<char>, sep: char) -> Option<(Seq<char>, Seq<char>)> {
    if has_sep(s, sep) {
        let i = choose|i: int| is_first_sep(s, sep, i);
        Some((s.take(i), s.subrange(i + 1, s.len() as int)))
    } else {
        None
    }
}

/// The first occurrence of a separator is at one position only.
pub proof fn lemma_first_sep_unique(s: Seq<char>, sep: char, i: int, j: int)
    requires
        is_first_sep(s, sep, i),
        is_first_sep(s, sep, j),
    ensures
        i == j,
{
}

proof fn lemma_digits_val_take_step(s: Seq<char>, i: int)
    requires
        0 <= i < s.len(),
    ensures
        digits_val(s.take(i + 1)) == digits_val(s.take(i)) * 10 + digit_val(s[i]),
{
    assert(s.take(i + 1).drop_last() =~= s.take(i));
    assert(s.take(i + 1).last() == s[i]);
}

pub proof fn lemma_digits_val_nonneg(s: Seq<char>)
    requires
        all_digits(s),
    ensures
        digits_val(s) >= 0,
    decreases s.len(),
{
    if s.len() > 0 {
        assert(all_digits(s.drop_last()));
        lemma_digits_val_nonneg(s.drop_last());
    }
}

/// On a digit string, the number a prefix denotes never exceeds the number
/// the whole string denotes.
proof fn lemma_digits_val_prefix_le(s: Seq<char>, i: int)
    requires
        0 <= i <= s.len(),
        all_digits(s),
    ensures
        digits_val(s.take(i)) <= digits_val(s),
    decreases s.len() - i,
{
    if i == s.len() {
        assert(s.take(i) =~= s);
    } else {
        lemma_digits_val_take_step(s, i);
        assert(all_digits(s.take(i)));
        lemma_digits_val_nonneg(s.take(i));
        lemma_digits_val_prefix_le(s, i + 1);
    }
}

/// Finds the first occurrence of `sep` in `s`.
#[verifier::loop_isolation(false)]
pub fn find_sep(s: &str, sep: char) -> (r: Option<usize>)
    ensures
        r matches Some(i) ==> is_first_sep(s@, sep, i as int),
        r is None ==> !has_sep(s@, sep),
{
    let n = s.unicode_len();
    let mut i: usize = 0;
    while i < n
        invariant
            i <= n,
            forall|j: int| 0 <= j < i ==> s@[j] != sep,
        decreases n - i,
    {
        let c = s.get_char(i);
        if c == sep {
            return Some(i);
        }
        i = i + 1;
    }
    None
}

/// Parses a nonempty string of decimal digits into the number it denotes.
/// Yields nothing exactly when the string is empty, holds a non-digit, or
/// denotes a number too large to represent.
#[verifier::loop_isolation(false)]
pub fn parse_number(s: &str) -> (r: Option<u64>)
    ensures
        r is Some <==> s@.len() > 0 && all_digits(s@) && digits_val(s@) <= u64::MAX,
        r matches Some(v) ==> v == digits_val(s@),
{
    let n = s.unicode_len();
    if n == 0 {
        return None;
    }
    let mut acc: u64 = 0;
    let mut i: usize = 0;
    proof {
        assert(s@.take(0) =~= Seq::<char>::empty());
    }
    while i < n
        invariant
            0 < n == s@.len(),
            i <= n,
            all_digits(s@.take(i as int)),
            acc == digits_val(s@.take(i as int)),
        decreases n - i,
    {
        let c = s.get_char(i);
        let cv = c as u32;
        if cv < 48 || cv > 57 {
            proof {
                assert(!is_digit(s@[i as int]));
            }
            return None;
        }
        let d = (cv - 48) as u64;
        proof {
            lemma_digits_val_take_step(s@, i as int);
        }
        if acc > (u64::MAX - d) / 10 {
            proof {
                lemma_fundamental_div_mod(u64::MAX - d, 10);
                lemma_mod_bound(u64::MAX - d, 10);
                if all_digits(s@) {
                    lemma_digits_val_prefix_le(s@, i + 1);
                }
            }
            return None;
        }
        proof {
            lemma_fundamental_div_mod(u64::MAX - d, 10);
            lemma_mod_bound(u64::MAX - d, 10);
        }
        acc = acc * 10 + d;
        proof {
            assert(s@.take(i + 1).drop_last() =~= s@.take(i as int));
        }
        i = i + 1;
    }
    proof {
        assert(s@.take(i as int) =~= s@);
    }
    Some(acc)
}

/// Splits `s` at the first occurrence of `sep` into the part before and the
/// part after; yields nothing when `s` has no separator.
pub fn split_once_at(s: &str, sep: char) -> (r: Option<(String, String)>)
    ensures
        r is Some <==> has_sep(s@, sep),
        r matches Some(p) ==> split_first(s@, sep) matches Some(q) && p.0@ == q.0 && p.1@ == q.1,
{
    match find_sep(s, sep) {
        None => None,
        Some(i) => {
            let n = s.unicode_len();
            let before = s.substring_char(0, i);
            let after = s.substring_char(i + 1, n);
            proof {
                let j = choose|j: int| is_first_sep(s@, sep, j);
                lemma_first_sep_unique(s@, sep, i as int, j);
                assert(s@.subrange(0, i as int) =~= s@.take(i as int));
            }
            Some((before.to_owned(), after.to_owned()))
        },
    }
}

} // verus!

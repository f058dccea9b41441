//! Decimal rendering and parsing of message indices.
//!
//! The codec writes a message index as its decimal digits and recovers it by
//! parsing the digits that follow the `idx:` marker.  Rendering and parsing
//! are exact inverses, which the round-trip lemma at the end states.

use vstd::prelude::*;
use crate::{spec_is_digit, spec_digit_val, is_digit};

verus! {

/// The digit character for a value below ten.
pub open spec fn spec_digit_char(d: nat) -> char
    recommends
        d < 10,
{
    if d == 0 {
        '0'
    } else if d == 1 {
        '1'
    } else if d == 2 {
        '2'
    } else if d == 3 {
        '3'
    } else if d == 4 {
        '4'
    } else if d == 5 {
        '5'
    } else if d == 6 {
        '6'
    } else if d == 7 {
        '7'
    } else if d == 8 {
        '8'
    } else {
        '9'
    }
}

/// The decimal digits of `n`, most significant first, without leading zeros
/// (the single digit `0` for zero).
pub open spec fn spec_dec_digits(n: nat) -> Seq<char>
    decreases n,
{
    if n < 10 {
        seq![spec_digit_char(n)]
    } else {
        spec_dec_digits(n / 10) + seq![spec_digit_char(n % 10)]
    }
}

/// Numeric value of a digit string, most significant first.
pub open spec fn spec_dec_val(s: Seq<char>) -> nat
    decreases s.len(),
{
    if s.len() == 0 {
        0
    } else {
        spec_dec_val(s.drop_last()) * 10 + spec_digit_val(s.last())
    }
}

/// Every character of `s` is a decimal digit.
pub open spec fn spec_all_digits(s: Seq<char>) -> bool {
    forall|i: int| 0 <= i < s.len() ==> spec_is_digit(#[trigger] s[i])
}

proof fn lemma_digit_char_val(d: nat)
    requires
        d < 10,
    ensures
        spec_is_digit(spec_digit_char(d)),
        spec_digit_val(spec_digit_char(d)) == d,
{
}

/// The decimal rendering of any value consists of digits only.
pub proof fn lemma_dec_digits_all_digits(n: nat)
    ensures
        spec_all_digits(spec_dec_digits(n)),
        spec_dec_digits(n).len() >= 1,
    decreases n,
{
    if n < 10 {
        lemma_digit_char_val(n);
    } else {
        lemma_dec_digits_all_digits(n / 10);
        lemma_digit_char_val(n % 10);
        assert forall|i: int| 0 <= i < spec_dec_digits(n).len()
            implies spec_is_digit(#[trigger] spec_dec_digits(n)[i]) by {
            if i < spec_dec_digits(n / 10).len() {
                assert(spec_dec_digits(n)[i] == spec_dec_digits(n / 10)[i]);
            }
        }
    }
}

/// Parsing the decimal rendering of `n` gives back `n`.
pub proof fn lemma_dec_round_trip(n: nat)
    ensures
        spec_dec_val(spec_dec_digits(n)) == n,
    decreases n,
{
    if n < 10 {
        lemma_digit_char_val(n);
        assert(spec_dec_digits(n).drop_last() =~= Seq::<char>::empty());
        assert(spec_dec_digits(n).last() == spec_digit_char(n));
        assert(spec_dec_val(Seq::<char>::empty()) == 0);
        assert(spec_dec_val(spec_dec_digits(n)) == spec_dec_val(spec_dec_digits(n).drop_last())
            * 10 + spec_digit_val(spec_dec_digits(n).last()));
    } else {
        lemma_dec_round_trip(n / 10);
        lemma_digit_char_val(n % 10);
        assert(spec_dec_digits(n).drop_last() =~= spec_dec_digits(n / 10));
        assert(spec_dec_digits(n).last() == spec_digit_char(n % 10));
        assert(spec_dec_val(spec_dec_digits(n)) == (n / 10) * 10 + n % 10);
        assert(n == (n / 10) * 10 + n % 10) by (nonlinear_arith);
    }
}

/// Digit character for a value below ten.
fn digit_char(d: u8) -> (c: char)
    requires
        d < 10,
    ensures
        c == spec_digit_char(d as nat),
{
    if d == 0 {
        '0'
    } else if d == 1 {
        '1'
    } else if d == 2 {
        '2'
    } else if d == 3 {
        '3'
    } else if d == 4 {
        '4'
    } else if d == 5 {
        '5'
    } else if d == 6 {
        '6'
    } else if d == 7 {
        '7'
    } else if d == 8 {
        '8'
    } else {
        '9'
    }
}

/// Numeric value of a digit character.
fn digit_val(c: char) -> (d: u8)
    requires
        spec_is_digit(c),
    ensures
        d < 10,
        d as nat == spec_digit_val(c),
{
    ((c as u32) - ('0' as u32)) as u8
}

/// Render `n` as its decimal digits, most significant first.
pub fn dec_digits(n: usize) -> (r: Vec<char>)
    ensures
        r@ == spec_dec_digits(n as nat),
    decreases n,
{
    if n < 10 {
        let mut r: Vec<char> = Vec::new();
        r.push(digit_char(n as u8));
        proof {
            assert(r@ =~= spec_dec_digits(n as nat));
        }
        r
    } else {
        let mut r = dec_digits(n / 10);
        r.push(digit_char((n % 10) as u8));
        proof {
            assert(r@ =~= spec_dec_digits(n as nat));
        }
        r
    }
}

/// Parse a digit string, most significant first; `None` when the string is
/// empty or its value does not fit in `usize`.
pub fn parse_dec(s: &Vec<char>) -> (r: Option<usize>)
    requires
        spec_all_digits(s@),
    ensures
        match r {
            Some(v) => v as nat == spec_dec_val(s@) && s@.len() >= 1,
            None => s@.len() == 0 || spec_dec_val(s@) > usize::MAX,
        },
{
    if s.len() == 0 {
        return None;
    }
    let mut acc: usize = 0;
    let mut i: usize = 0;
    while i < s.len()
        invariant
            i <= s@.len(),
            spec_all_digits(s@),
            acc as nat == spec_dec_val(s@.subrange(0, i as int)),
        decreases s@.len() - i,
    {
        let d = digit_val(s[i]);
        let shifted = match acc.checked_mul(10) {
            Some(x) => x,
            None => {
                proof {
                    lemma_dec_val_prefix_le(s@, i as int);
                }
                return None;
            },
        };
        let next = match shifted.checked_add(d as usize) {
            Some(x) => x,
            None => {
                proof {
                    lemma_dec_val_prefix_le(s@, i as int);
                }
                return None;
            },
        };
        proof {
            assert(s@.subrange(0, i + 1).drop_last() =~= s@.subrange(0, i as int));
        }
        acc = next;
        i = i + 1;
    }
    proof {
        assert(s@.subrange(0, s@.len() as int) =~= s@);
    }
    Some(acc)
}

/// The value of a digit string is at least the value of any of its prefixes
/// scaled up by the remaining positions; in particular, once a prefix
/// overflows, the whole string does.
proof fn lemma_dec_val_prefix_le(s: Seq<char>, i: int)
    requires
        0 <= i < s.len(),
    ensures
        spec_dec_val(s) >= spec_dec_val(s.subrange(0, i)) * 10 + spec_digit_val(s[i]),
    decreases s.len() - i,
{
    if i == s.len() - 1 {
        assert(s.subrange(0, i) =~= s.drop_last());
    } else {
        lemma_dec_val_prefix_le(s.drop_last(), i);
        assert(s.drop_last().subrange(0, i) =~= s.subrange(0, i));
        assert(s.drop_last()[i] == s[i]);
        assert(spec_dec_val(s) == spec_dec_val(s.drop_last()) * 10 + spec_digit_val(s.last()));
        assert(spec_dec_val(s.drop_last()) >= spec_dec_val(s.subrange(0, i)) * 10
            + spec_digit_val(s[i]));
        assert(spec_dec_val(s.drop_last()) * 10 >= (spec_dec_val(s.subrange(0, i)) * 10
            + spec_digit_val(s[i])) * 10) by (nonlinear_arith)
            requires
                spec_dec_val(s.drop_last()) >= spec_dec_val(s.subrange(0, i)) * 10
                    + spec_digit_val(s[i]),
        ;
        assert((spec_dec_val(s.subrange(0, i)) * 10 + spec_digit_val(s[i])) * 10
            >= spec_dec_val(s.subrange(0, i)) * 10 + spec_digit_val(s[i])) by (nonlinear_arith);
    }
}

} // verus!

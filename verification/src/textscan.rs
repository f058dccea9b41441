//! Character-sequence scanning primitives for the metadata codec.
//!
//! The codec locates structural markers (`]`, `idx:`, `{`) inside a
//! description string, collects runs of digits, and trims whitespace.  Each
//! operation has a spec-level definition, a characterization lemma pinning
//! down "first occurrence", and a verified executable counterpart.

use vstd::prelude::*;
use crate::{spec_is_digit, spec_is_space, is_digit, is_space};
use crate::digits::spec_all_digits;

verus! {

/// Position of the first occurrence of `c` in `s`.
pub open spec fn spec_find_char(s: Seq<char>, c: char) -> Option<int>
    decreases s.len(),
{
    if s.len() == 0 {
        None
    } else if s[0] == c {
        Some(0int)
    } else {
        match spec_find_char(s.drop_first(), c) {
            None => None,
            Some(i) => Some(i + 1),
        }
    }
}

/// `spec_find_char` returns the first occurrence: a hit at the returned
/// position and misses everywhere before it.
pub proof fn lemma_find_char(s: Seq<char>, c: char)
    ensures
        match spec_find_char(s, c) {
            Some(i) => 0 <= i < s.len() && s[i] == c && (forall|j: int|
                0 <= j < i ==> s[j] != c),
            None => forall|j: int| 0 <= j < s.len() ==> s[j] != c,
        },
    decreases s.len(),
{
    if s.len() == 0 {
    } else if s[0] == c {
    } else {
        lemma_find_char(s.drop_first(), c);
        match spec_find_char(s.drop_first(), c) {
            None => {
                assert forall|j: int| 0 <= j < s.len() implies s[j] != c by {
                    if j > 0 {
                        assert(s.drop_first()[j - 1] == s[j]);
                    }
                }
            },
            Some(i) => {
                assert(s.drop_first()[i] == s[i + 1]);
                assert forall|j: int| 0 <= j < i + 1 implies s[j] != c by {
                    if j > 0 {
                        assert(s.drop_first()[j - 1] == s[j]);
                    }
                }
            },
        }
    }
}

/// A first occurrence determines the result of `spec_find_char`.
pub proof fn lemma_find_char_is(s: Seq<char>, c: char, i: int)
    requires
        0 <= i < s.len(),
        s[i] == c,
        forall|j: int| 0 <= j < i ==> s[j] != c,
    ensures
        spec_find_char(s, c) == Some(i),
{
    lemma_find_char(s, c);
    match spec_find_char(s, c) {
        None => {
            assert(false);
        },
        Some(k) => {
            if k < i {
                assert(s[k] != c);
            }
            if i < k {
                assert(s[i] != c);
            }
        },
    }
}

/// The pattern `pat` occurs in `s` at position `i`.
pub open spec fn spec_match_at(s: Seq<char>, pat: Seq<char>, i: int) -> bool {
    0 <= i && i + pat.len() <= s.len() && s.subrange(i, i + pat.len()) == pat
}

/// Position of the first occurrence of `pat` in `s`.
pub open spec fn spec_find_sub(s: Seq<char>, pat: Seq<char>) -> Option<int>
    decreases s.len(),
{
    if s.len() < pat.len() {
        None
    } else if s.subrange(0, pat.len() as int) == pat {
        Some(0int)
    } else if s.len() == 0 {
        None
    } else {
        match spec_find_sub(s.drop_first(), pat) {
            None => None,
            Some(i) => Some(i + 1),
        }
    }
}

/// `spec_find_sub` returns the first occurrence: a match at the returned
/// position and no match anywhere before it.
pub proof fn lemma_find_sub(s: Seq<char>, pat: Seq<char>)
    ensures
        match spec_find_sub(s, pat) {
            Some(i) => spec_match_at(s, pat, i) && (forall|j: int|
                0 <= j < i ==> !spec_match_at(s, pat, j)),
            None => forall|j: int| !spec_match_at(s, pat, j),
        },
    decreases s.len(),
{
    if s.len() < pat.len() {
    } else if s.subrange(0, pat.len() as int) == pat {
    } else if s.len() == 0 {
        assert(pat.len() == 0);
        assert(s.subrange(0, 0) =~= pat);
    } else {
        lemma_find_sub(s.drop_first(), pat);
        assert forall|j: int| 0 <= j && spec_match_at(s, pat, j + 1)
            implies spec_match_at(s.drop_first(), pat, j) by {
            assert(s.drop_first().subrange(j, j + pat.len() as int) =~= s.subrange(
                j + 1,
                j + 1 + pat.len() as int,
            ));
        }
        assert forall|j: int| 0 <= j && spec_match_at(s.drop_first(), pat, j)
            implies spec_match_at(s, pat, j + 1) by {
            assert(s.drop_first().subrange(j, j + pat.len() as int) =~= s.subrange(
                j + 1,
                j + 1 + pat.len() as int,
            ));
        }
        match spec_find_sub(s.drop_first(), pat) {
            None => {
                assert forall|j: int| !spec_match_at(s, pat, j) by {
                    if j == 0 {
                    } else if j > 0 {
                        assert(!spec_match_at(s.drop_first(), pat, j - 1));
                    }
                }
            },
            Some(i) => {
                assert(spec_match_at(s, pat, i + 1));
                assert forall|j: int| 0 <= j < i + 1 implies !spec_match_at(s, pat, j) by {
                    if j > 0 {
                        assert(!spec_match_at(s.drop_first(), pat, j - 1));
                    }
                }
            },
        }
    }
}

/// A first match determines the result of `spec_find_sub`.
pub proof fn lemma_find_sub_is(s: Seq<char>, pat: Seq<char>, i: int)
    requires
        spec_match_at(s, pat, i),
        forall|j: int| 0 <= j < i ==> !spec_match_at(s, pat, j),
    ensures
        spec_find_sub(s, pat) == Some(i),
{
    lemma_find_sub(s, pat);
    match spec_find_sub(s, pat) {
        None => {
            assert(!spec_match_at(s, pat, i));
        },
        Some(k) => {
            if k < i {
                assert(!spec_match_at(s, pat, k));
            }
            if i < k {
                assert(!spec_match_at(s, pat, i));
            }
        },
    }
}

/// The longest digit prefix of `s`.
pub open spec fn spec_leading_digits(s: Seq<char>) -> Seq<char>
    decreases s.len(),
{
    if s.len() == 0 || !spec_is_digit(s[0]) {
        Seq::empty()
    } else {
        seq![s[0]] + spec_leading_digits(s.drop_first())
    }
}

/// The digit prefix consists of digits only.
pub proof fn lemma_leading_digits_all_digits(s: Seq<char>)
    ensures
        spec_all_digits(spec_leading_digits(s)),
    decreases s.len(),
{
    if s.len() == 0 || !spec_is_digit(s[0]) {
    } else {
        lemma_leading_digits_all_digits(s.drop_first());
        let r = spec_leading_digits(s);
        assert forall|i: int| 0 <= i < r.len() implies spec_is_digit(#[trigger] r[i]) by {
            if i > 0 {
                assert(r[i] == spec_leading_digits(s.drop_first())[i - 1]);
            }
        }
    }
}

/// When `s` is a run of digits followed by a non-digit (or nothing), the
/// digit prefix is exactly that run.
pub proof fn lemma_leading_digits_exact(d: Seq<char>, rest: Seq<char>)
    requires
        spec_all_digits(d),
        rest.len() == 0 || !spec_is_digit(rest[0]),
    ensures
        spec_leading_digits(d + rest) == d,
    decreases d.len(),
{
    if d.len() == 0 {
        assert(d + rest =~= rest);
        assert(spec_leading_digits(rest) =~= Seq::<char>::empty());
        assert(spec_leading_digits(d + rest) =~= d);
    } else {
        assert(spec_all_digits(d.drop_first())) by {
            assert forall|i: int| 0 <= i < d.drop_first().len()
                implies spec_is_digit(#[trigger] d.drop_first()[i]) by {
                assert(d.drop_first()[i] == d[i + 1]);
            }
        }
        lemma_leading_digits_exact(d.drop_first(), rest);
        assert((d + rest).drop_first() =~= d.drop_first() + rest);
        assert(spec_is_digit((d + rest)[0]));
        assert(spec_leading_digits(d + rest) =~= seq![(d + rest)[0]] + spec_leading_digits(
            (d + rest).drop_first(),
        ));
        assert(seq![(d + rest)[0]] + d.drop_first() =~= d);
    }
}

/// Strip leading whitespace.
pub open spec fn spec_trim_start(s: Seq<char>) -> Seq<char>
    decreases s.len(),
{
    if s.len() == 0 || !spec_is_space(s[0]) {
        s
    } else {
        spec_trim_start(s.drop_first())
    }
}

/// Strip trailing whitespace.
pub open spec fn spec_trim_end(s: Seq<char>) -> Seq<char>
    decreases s.len(),
{
    if s.len() == 0 || !spec_is_space(s.last()) {
        s
    } else {
        spec_trim_end(s.drop_last())
    }
}

/// Strip whitespace at both ends.
pub open spec fn spec_trim(s: Seq<char>) -> Seq<char> {
    spec_trim_end(spec_trim_start(s))
}

/// Stripping leading whitespace keeps the suffix after the first non-blank
/// character.
pub proof fn lemma_trim_start_at(s: Seq<char>, a: int)
    requires
        0 <= a <= s.len(),
        forall|j: int| 0 <= j < a ==> spec_is_space(#[trigger] s[j]),
        a == s.len() || !spec_is_space(s[a]),
    ensures
        spec_trim_start(s) == s.subrange(a, s.len() as int),
    decreases a,
{
    if a == 0 {
        assert(s.subrange(0, s.len() as int) =~= s);
    } else {
        assert(spec_is_space(s[0]));
        assert forall|j: int| 0 <= j < a - 1 implies spec_is_space(#[trigger] s.drop_first()[j]) by {
            assert(s.drop_first()[j] == s[j + 1]);
        }
        if a - 1 < s.drop_first().len() {
            assert(s.drop_first()[a - 1] == s[a]);
        }
        lemma_trim_start_at(s.drop_first(), a - 1);
        assert(s.drop_first().subrange(a - 1, s.drop_first().len() as int) =~= s.subrange(
            a,
            s.len() as int,
        ));
    }
}

/// Stripping trailing whitespace keeps the prefix up to the last non-blank
/// character.
pub proof fn lemma_trim_end_at(s: Seq<char>, b: int)
    requires
        0 <= b <= s.len(),
        forall|j: int| b <= j < s.len() ==> spec_is_space(#[trigger] s[j]),
        b == 0 || !spec_is_space(s[b - 1]),
    ensures
        spec_trim_end(s) == s.subrange(0, b),
    decreases s.len() - b,
{
    if b == s.len() {
        assert(s.subrange(0, b) =~= s);
    } else {
        assert(spec_is_space(s.last()));
        lemma_trim_end_at(s.drop_last(), b);
        assert(s.drop_last().subrange(0, b) =~= s.subrange(0, b));
    }
}

/// Copy the characters of `v` between `from` and `to`.
pub fn copy_range(v: &Vec<char>, from: usize, to: usize) -> (r: Vec<char>)
    requires
        from <= to <= v@.len(),
    ensures
        r@ == v@.subrange(from as int, to as int),
{
    let mut r: Vec<char> = Vec::new();
    let mut i: usize = from;
    while i < to
        invariant
            from <= i <= to <= v@.len(),
            r@ == v@.subrange(from as int, i as int),
        decreases to - i,
    {
        r.push(v[i]);
        i = i + 1;
        proof {
            assert(r@ =~= v@.subrange(from as int, i as int));
        }
    }
    r
}

/// First occurrence of `c` in `v`.
pub fn find_char(v: &Vec<char>, c: char) -> (r: Option<usize>)
    ensures
        r matches Some(i) ==> spec_find_char(v@, c) == Some(i as int),
        r is None ==> spec_find_char(v@, c) is None,
{
    let mut i: usize = 0;
    while i < v.len()
        invariant
            i <= v@.len(),
            forall|j: int| 0 <= j < i ==> v@[j] != c,
        decreases v@.len() - i,
    {
        if v[i] == c {
            proof {
                lemma_find_char_is(v@, c, i as int);
            }
            return Some(i);
        }
        i = i + 1;
    }
    proof {
        lemma_find_char(v@, c);
        match spec_find_char(v@, c) {
            Some(k) => {
                assert(v@[k] != c);
            },
            None => {},
        }
    }
    None
}

/// First occurrence of `pat` in `v`.
pub fn find_sub(v: &Vec<char>, pat: &Vec<char>) -> (r: Option<usize>)
    requires
        pat@.len() >= 1,
    ensures
        r matches Some(i) ==> spec_find_sub(v@, pat@) == Some(i as int),
        r is None ==> spec_find_sub(v@, pat@) is None,
{
    if v.len() < pat.len() {
        proof {
            lemma_find_sub(v@, pat@);
            match spec_find_sub(v@, pat@) {
                Some(k) => {
                    assert(spec_match_at(v@, pat@, k));
                },
                None => {},
            }
        }
        return None;
    }
    let mut i: usize = 0;
    while i <= v.len() - pat.len()
        invariant
            pat@.len() >= 1,
            pat@.len() <= v@.len(),
            i <= v@.len() - pat@.len() + 1,
            forall|j: int| 0 <= j < i ==> !spec_match_at(v@, pat@, j),
        decreases v@.len() - i,
    {
        let mut k: usize = 0;
        let mut hit = true;
        while k < pat.len()
            invariant
                pat@.len() >= 1,
                i + pat@.len() <= v@.len(),
                v@.len() <= usize::MAX,
                k <= pat@.len(),
                hit ==> v@.subrange(i as int, i + k as int) =~= pat@.subrange(0, k as int),
                !hit ==> !spec_match_at(v@, pat@, i as int),
            decreases pat@.len() - k,
        {
            if v[i + k] != pat[k] {
                proof {
                    if spec_match_at(v@, pat@, i as int) {
                        assert(v@.subrange(i as int, i + pat@.len())[k as int] == pat@[k as int]);
                    }
                }
                hit = false;
                k = pat.len();
            } else {
                proof {
                    assert(v@.subrange(i as int, i + (k + 1) as int) =~= v@.subrange(
                        i as int,
                        i + k as int,
                    ).push(v@[i + k as int]));
                    assert(pat@.subrange(0, (k + 1) as int) =~= pat@.subrange(
                        0,
                        k as int,
                    ).push(pat@[k as int]));
                }
                k = k + 1;
            }
        }
        if hit {
            proof {
                assert(pat@.subrange(0, pat@.len() as int) =~= pat@);
                assert(spec_match_at(v@, pat@, i as int));
                lemma_find_sub_is(v@, pat@, i as int);
            }
            return Some(i);
        }
        i = i + 1;
    }
    proof {
        lemma_find_sub(v@, pat@);
        match spec_find_sub(v@, pat@) {
            Some(k) => {
                assert(!spec_match_at(v@, pat@, k));
            },
            None => {},
        }
    }
    None
}

/// Collect the run of digits in `v` starting at `from`.
pub fn take_digits(v: &Vec<char>, from: usize) -> (r: Vec<char>)
    requires
        from <= v@.len(),
    ensures
        r@ == spec_leading_digits(v@.subrange(from as int, v@.len() as int)),
        spec_all_digits(r@),
{
    let mut i: usize = from;
    while i < v.len() && is_digit(v[i])
        invariant
            from <= i <= v@.len(),
            forall|j: int| from <= j < i ==> spec_is_digit(#[trigger] v@[j]),
        decreases v@.len() - i,
    {
        i = i + 1;
    }
    let r = copy_range(v, from, i);
    proof {
        let tail = v@.subrange(from as int, v@.len() as int);
        let rest = v@.subrange(i as int, v@.len() as int);
        assert(spec_all_digits(r@)) by {
            assert forall|j: int| 0 <= j < r@.len() implies spec_is_digit(#[trigger] r@[j]) by {
                assert(r@[j] == v@[from + j]);
            }
        }
        assert(tail =~= r@ + rest);
        if rest.len() > 0 {
            assert(rest[0] == v@[i as int]);
        }
        lemma_leading_digits_exact(r@, rest);
    }
    r
}

/// Remove whitespace from both ends of `v`.
pub fn trim(v: &Vec<char>) -> (r: Vec<char>)
    ensures
        r@ == spec_trim(v@),
{
    let t = trim_start(v);
    let mut b: usize = t.len();
    while b > 0 && is_space(t[b - 1])
        invariant
            b <= t@.len(),
            forall|j: int| b <= j < t@.len() ==> spec_is_space(#[trigger] t@[j]),
        decreases b,
    {
        b = b - 1;
    }
    let r = copy_range(&t, 0, b);
    proof {
        lemma_trim_end_at(t@, b as int);
    }
    r
}

/// Remove leading whitespace from `v`.
pub fn trim_start(v: &Vec<char>) -> (r: Vec<char>)
    ensures
        r@ == spec_trim_start(v@),
{
    let mut a: usize = 0;
    while a < v.len() && is_space(v[a])
        invariant
            a <= v@.len(),
            forall|j: int| 0 <= j < a ==> spec_is_space(#[trigger] v@[j]),
        decreases v@.len() - a,
    {
        a = a + 1;
    }
    let r = copy_range(v, a, v.len());
    proof {
        lemma_trim_start_at(v@, a as int);
    }
    r
}

} // verus!

//! Small string helpers with exact contracts.

use vstd::prelude::*;

verus! {

/// Whether two strings hold the same characters.
pub fn str_eq(a: &str, b: &str) -> (r: bool)
    ensures
        r == (a@ == b@),
{
    let sa = String::from_str(a);
    let sb = String::from_str(b);
    sa == sb
}

/// A new string with the characters of `s`.
pub fn owned(s: &str) -> (r: String)
    ensures
        r@ == s@,
{
    String::from_str(s)
}

} // verus!

verus! {

/// Index of the first element satisfying `p`.
pub open spec fn spec_first_index<T>(s: Seq<T>, p: spec_fn(T) -> bool) -> Option<int>
    decreases s.len(),
{
    if s.len() == 0 {
        None
    } else if p(s[0]) {
        Some(0)
    } else {
        match spec_first_index(s.subrange(1, s.len() as int), p) {
            Some(i) => Some(i + 1),
            None => None,
        }
    }
}

pub proof fn lemma_first_index<T>(s: Seq<T>, p: spec_fn(T) -> bool)
    ensures
        spec_first_index(s, p) matches Some(i) ==> 0 <= i < s.len() && p(s[i])
            && forall|j: int| 0 <= j < i ==> !p(#[trigger] s[j]),
        spec_first_index(s, p) is None ==> forall|j: int| 0 <= j < s.len() ==> !p(#[trigger] s[j]),
    decreases s.len(),
{
    if s.len() > 0 && !p(s[0]) {
        let rest = s.subrange(1, s.len() as int);
        lemma_first_index(rest, p);
        assert forall|j: int| 1 <= j < s.len() implies s[j] == rest[j - 1] by {}
    }
}

/// Converse characterization of the first index.
pub proof fn lemma_first_index_is<T>(s: Seq<T>, p: spec_fn(T) -> bool, i: int)
    requires
        0 <= i < s.len(),
        p(s[i]),
        forall|j: int| 0 <= j < i ==> !p(#[trigger] s[j]),
    ensures
        spec_first_index(s, p) == Some(i),
{
    lemma_first_index(s, p);
    if let Some(k) = spec_first_index(s, p) {
        if k < i {
            assert(!p(s[k]));
        }
        if k > i {
            assert(!p(s[i]));
        }
    }
}

} // verus!

verus! {

/// The first index in a sequence with one more element.
pub proof fn lemma_first_index_push<T>(s: Seq<T>, x: T, p: spec_fn(T) -> bool)
    ensures
        spec_first_index(s.push(x), p) == (match spec_first_index(s, p) {
            Some(i) => Some(i),
            None => if p(x) { Some(s.len() as int) } else { None },
        }),
{
    let t = s.push(x);
    lemma_first_index(s, p);
    lemma_first_index(t, p);
    match spec_first_index(s, p) {
        Some(i) => {
            lemma_first_index_is(t, p, i);
        },
        None => {
            if p(x) {
                lemma_first_index_is(t, p, s.len() as int);
            } else {
                if let Some(k) = spec_first_index(t, p) {
                    if k < s.len() {
                        assert(t[k] == s[k]);
                    }
                }
            }
        },
    }
}

/// Two sequences whose elements agree on their predicates pointwise have the
/// same first index.
pub proof fn lemma_first_index_pointwise<T, U>(s: Seq<T>, p: spec_fn(T) -> bool, t: Seq<U>, q: spec_fn(U) -> bool)
    requires
        s.len() == t.len(),
        forall|i: int| 0 <= i < s.len() ==> p(#[trigger] s[i]) == q(t[i]),
    ensures
        spec_first_index(s, p) == spec_first_index(t, q),
{
    lemma_first_index(s, p);
    lemma_first_index(t, q);
    match spec_first_index(s, p) {
        Some(i) => {
            assert forall|j: int| 0 <= j < i implies !q(#[trigger] t[j]) by {
                assert(p(s[j]) == q(t[j]));
            }
            assert(p(s[i]) == q(t[i]));
            lemma_first_index_is(t, q, i);
        },
        None => {
            if let Some(k) = spec_first_index(t, q) {
                assert(p(s[k]) == q(t[k]));
            }
        },
    }
}

} // verus!

verus! {

/// The decimal digit `d` as text.
pub open spec fn spec_digit(d: nat) -> Seq<char> {
    if d == 0 {
        "0"@
    } else if d == 1 {
        "1"@
    } else if d == 2 {
        "2"@
    } else if d == 3 {
        "3"@
    } else if d == 4 {
        "4"@
    } else if d == 5 {
        "5"@
    } else if d == 6 {
        "6"@
    } else if d == 7 {
        "7"@
    } else if d == 8 {
        "8"@
    } else {
        "9"@
    }
}

/// The decimal notation of a natural number, without leading zeros.
pub open spec fn spec_decimal(n: nat) -> Seq<char>
    decreases n,
{
    if n < 10 {
        spec_digit(n)
    } else {
        spec_decimal(n / 10) + spec_digit(n % 10)
    }
}

/// The decimal notation of an integer, with a leading `-` when negative.
pub open spec fn spec_signed_decimal(v: int) -> Seq<char> {
    if v < 0 {
        "-"@ + spec_decimal((-v) as nat)
    } else {
        spec_decimal(v as nat)
    }
}

fn digit_str(d: u64) -> (s: &'static str)
    requires
        d < 10,
    ensures
        s@ == spec_digit(d as nat),
{
    if d == 0 {
        "0"
    } else if d == 1 {
        "1"
    } else if d == 2 {
        "2"
    } else if d == 3 {
        "3"
    } else if d == 4 {
        "4"
    } else if d == 5 {
        "5"
    } else if d == 6 {
        "6"
    } else if d == 7 {
        "7"
    } else if d == 8 {
        "8"
    } else {
        "9"
    }
}

/// The decimal notation of an unsigned integer.
pub fn decimal_u64(n: u64) -> (s: String)
    ensures
        s@ == spec_decimal(n as nat),
    decreases n,
{
    if n < 10 {
        owned(digit_str(n))
    } else {
        let mut s = decimal_u64(n / 10);
        s.append(digit_str(n % 10));
        s
    }
}

/// The decimal notation of a signed integer.
pub fn decimal_i64(v: i64) -> (s: String)
    ensures
        s@ == spec_signed_decimal(v as int),
{
    if v < 0 {
        let magnitude: u64 = (-(v as i128)) as u64;
        let mut s = owned("-");
        s.append(decimal_u64(magnitude).as_str());
        s
    } else {
        decimal_u64(v as u64)
    }
}

} // verus!

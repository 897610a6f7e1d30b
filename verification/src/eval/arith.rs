//! Exact integer helpers used by the evaluator: Euclidean remainders,
//! powers of two, and truncating division.

use vstd::prelude::*;
use vstd::arithmetic::power2::{pow2, lemma_pow2_unfold, lemma_pow2_strictly_increases, lemma2_to64, lemma2_to64_rest};
use vstd::arithmetic::div_mod::{lemma_fundamental_div_mod, lemma_mod_bound, lemma_fundamental_div_mod_converse};

verus! {

/// Division rounding toward zero, as Rust's `/` on signed integers.
pub open spec fn spec_tdiv(x: int, y: int) -> int {
    if x >= 0 {
        if y > 0 { x / y } else { -(x / (-y)) }
    } else {
        if y > 0 { -((-x) / y) } else { (-x) / (-y) }
    }
}

/// Remainder of [`spec_tdiv`], as Rust's `%` on signed integers.
pub open spec fn spec_trem(x: int, y: int) -> int {
    x - y * spec_tdiv(x, y)
}

/// Euclidean remainder of a signed value by a positive modulus.
pub fn euclid_mod(v: i128, m: u128) -> (r: u128)
    requires
        0 < m <= 0x1_0000_0000_0000_0000,
    ensures
        r as int == (v as int) % (m as int),
        r < m,
{
    if v >= 0 {
        let r = (v as u128) % m;
        r
    } else {
        let a: u128 = (-(v + 1)) as u128;
        let t: u128 = a % m;
        let r: u128 = m - 1 - t;
        proof {
            let ai = a as int;
            let mi = m as int;
            lemma_fundamental_div_mod(ai, mi);
            lemma_mod_bound(ai, mi);
            let q = ai / mi;
            assert(v as int == (-(q + 1)) * mi + (mi - 1 - t as int)) by (nonlinear_arith)
                requires ai == mi * q + t as int, v as int == -(ai + 1);
            lemma_fundamental_div_mod_converse(v as int, mi, -(q + 1), mi - 1 - t as int);
        }
        r
    }
}

/// `2^e` for exponents below 64.
pub fn pow2_u128(e: u32) -> (r: u128)
    requires
        e < 64,
    ensures
        r as nat == pow2(e as nat),
        1 <= r <= 0x8000_0000_0000_0000,
{
    let mut r: u128 = 1;
    let mut i: u32 = 0;
    proof {
        lemma2_to64();
        lemma2_to64_rest();
    }
    while i < e
        invariant
            i <= e < 64,
            r as nat == pow2(i as nat),
            pow2(63) == 0x8000_0000_0000_0000,
        decreases e - i,
    {
        proof {
            lemma_pow2_unfold((i + 1) as nat);
            if i + 1 < 63 {
                lemma_pow2_strictly_increases((i + 1) as nat, 63);
            }
        }
        r = r * 2;
        i = i + 1;
    }
    proof {
        if e < 63 {
            lemma_pow2_strictly_increases(e as nat, 63);
        }
        vstd::arithmetic::power2::lemma_pow2_pos(e as nat);
    }
    r
}

/// Truncating division of values that fit in 64 bits.
pub fn tdiv_i128(x: i128, y: i128) -> (q: i128)
    requires
        y != 0,
        -0x8000_0000_0000_0000 <= x <= 0xffff_ffff_ffff_ffff,
        -0x8000_0000_0000_0000 <= y <= 0xffff_ffff_ffff_ffff,
    ensures
        q as int == spec_tdiv(x as int, y as int),
{
    let ax: u128 = if x >= 0 { x as u128 } else { (-x) as u128 };
    let ay: u128 = if y >= 0 { y as u128 } else { (-y) as u128 };
    let aq: u128 = ax / ay;
    proof {
        assert(aq <= ax) by (nonlinear_arith)
            requires aq == ax / ay, ay >= 1;
    }
    if (x >= 0) == (y > 0) {
        aq as i128
    } else {
        -(aq as i128)
    }
}

/// Truncating remainder of values that fit in 64 bits.
pub fn trem_i128(x: i128, y: i128) -> (m: i128)
    requires
        y != 0,
        -0x8000_0000_0000_0000 <= x <= 0xffff_ffff_ffff_ffff,
        -0x8000_0000_0000_0000 <= y <= 0xffff_ffff_ffff_ffff,
    ensures
        m as int == spec_trem(x as int, y as int),
{
    let q = tdiv_i128(x, y);
    proof {
        let xi = x as int;
        let yi = y as int;
        let ax = if xi >= 0 { xi } else { -xi };
        let ay = if yi >= 0 { yi } else { -yi };
        lemma_fundamental_div_mod(ax, ay);
        lemma_mod_bound(ax, ay);
        assert(-ax <= yi * spec_tdiv(xi, yi) <= ax) by (nonlinear_arith)
            requires
                ax == ay * (ax / ay) + ax % ay,
                0 <= ax % ay < ay,
                ay >= 1,
                ax >= 0,
                ay == (if yi >= 0 { yi } else { -yi }),
                ax == (if xi >= 0 { xi } else { -xi }),
                spec_tdiv(xi, yi) == (if (xi >= 0) == (yi > 0) { ax / ay } else { -(ax / ay) }),
        ;
    }
    x - y * q
}

} // verus!

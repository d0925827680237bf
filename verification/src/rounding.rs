//! Integer arithmetic that rounds: quotients to the nearest integer, square roots down.

use vstd::prelude::*;

verus! {

/// `num / den` rounded to the nearest integer, halves rounded up.
pub open spec fn div_round(num: int, den: int) -> int
    recommends
        den > 0,
{
    (2 * num + den) / (2 * den)
}

/// A rounded quotient lies between the quotients of the bounds of its numerator.
pub proof fn lemma_div_round_bounds(num: int, den: int, cap: int)
    requires
        den > 0,
        0 <= num <= cap * den,
    ensures
        0 <= div_round(num, den) <= cap,
{
    assert(0 <= (2 * num + den) / (2 * den) <= cap) by (nonlinear_arith)
        requires
            den > 0,
            0 <= num <= cap * den,
    ;
}

/// A rounded quotient does not decrease when its numerator grows.
pub proof fn lemma_div_round_monotonic(a: int, b: int, den: int)
    requires
        den > 0,
        a <= b,
    ensures
        div_round(a, den) <= div_round(b, den),
{
    assert((2 * a + den) / (2 * den) <= (2 * b + den) / (2 * den)) by (nonlinear_arith)
        requires
            den > 0,
            a <= b,
    ;
}

/// `num / den`, rounded to the nearest integer, halves rounded up.
pub fn div_round_exec(num: i128, den: u64) -> (q: i128)
    requires
        den > 0,
        -0x1000_0000_0000_0000_0000_0000_0000_0000 <= num
            <= 0x1000_0000_0000_0000_0000_0000_0000_0000,
    ensures
        q == div_round(num as int, den as int),
{
    let double: i128 = 2 * num + den as i128;
    let wide: i128 = 2 * (den as i128);
    if double >= 0 {
        double / wide
    } else {
        let up: i128 = (-double) + wide - 1;
        let q: i128 = up / wide;
        assert(-q == (double as int) / (wide as int)) by (nonlinear_arith)
            requires
                wide > 0,
                double < 0,
                q == (-double + wide - 1) / (wide as int),
        ;
        -q
    }
}

/// `r` is the integer part of the square root of `v`.
pub open spec fn is_isqrt(v: int, r: int) -> bool {
    0 <= r && r * r <= v < (r + 1) * (r + 1)
}

/// The integer part of the square root of `v`.
pub open spec fn isqrt_spec(v: int) -> int {
    choose|r: int| is_isqrt(v, r)
}

/// There is one integer square root.
pub proof fn lemma_isqrt_unique(v: int, r1: int, r2: int)
    requires
        is_isqrt(v, r1),
        is_isqrt(v, r2),
    ensures
        r1 == r2,
{
    if r1 < r2 {
        assert((r1 + 1) * (r1 + 1) <= r2 * r2) by (nonlinear_arith)
            requires
                0 <= r1 + 1 <= r2,
        ;
    }
    if r2 < r1 {
        assert((r2 + 1) * (r2 + 1) <= r1 * r1) by (nonlinear_arith)
            requires
                0 <= r2 + 1 <= r1,
        ;
    }
}

/// The integer part of the square root of `v`.
pub fn isqrt(v: u128) -> (r: u64)
    ensures
        is_isqrt(v as int, r as int),
        r == isqrt_spec(v as int),
{
    let mut lo: u128 = 0;
    let mut hi: u128 = 0x1_0000_0000_0000_0000;
    assert(lo * lo <= v);
    assert((v as int) < hi * hi) by (nonlinear_arith)
        requires
            hi == 0x1_0000_0000_0000_0000,
            v <= u128::MAX,
    ;
    while hi - lo > 1
        invariant
            lo < hi <= 0x1_0000_0000_0000_0000,
            lo * lo <= v,
            (v as int) < hi * hi,
        decreases hi - lo,
    {
        let mid: u128 = lo + (hi - lo) / 2;
        assert(mid * mid < 0x1_0000_0000_0000_0000 * 0x1_0000_0000_0000_0000) by (nonlinear_arith)
            requires
                0 <= mid < 0x1_0000_0000_0000_0000,
        ;
        if mid * mid <= v {
            lo = mid;
        } else {
            hi = mid;
        }
    }
    proof {
        assert(hi == lo + 1);
        let found = isqrt_spec(v as int);
        assert(is_isqrt(v as int, lo as int));
        lemma_isqrt_unique(v as int, lo as int, found);
    }
    lo as u64
}

} // verus!

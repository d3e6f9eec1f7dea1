use vstd::arithmetic::div_mod::{
    lemma_fundamental_div_mod, lemma_mod_division_less_than_divisor, lemma_multiply_divide_lt,
};
use vstd::prelude::*;

verus! {

// Deterministic integer arithmetic shared by the engines.  Every ratio is kept
// as an exact numerator/denominator pair in a wide enough intermediate and is
// converted to an integer token amount only at the final step, with one
// rounding rule per operation: the swap quotient rounds to the nearest integer
// (halves up), the liquidity and withdrawal quotients truncate, and the
// bootstrap square root rounds to the nearest integer.

/// The smaller of two integers.
pub open spec fn spec_min(x: int, y: int) -> int {
    if x <= y {
        x
    } else {
        y
    }
}

/// Holds when `r` is `sqrt(p)` rounded to the nearest integer, that is,
/// `(r - 1/2)^2 <= p < (r + 1/2)^2`, written over `4p` to stay in the
/// integers.  A half is never hit exactly, since `4p` is even while
/// `(2r - 1)^2` and `(2r + 1)^2` are odd.
pub open spec fn is_rounded_sqrt(p: int, r: int) -> bool {
    &&& 0 <= r
    &&& 4 * p <= 4 * r * r + 4 * r
    &&& r == 0 || 4 * r * r - 4 * r + 1 <= 4 * p
}

/// `sqrt(p)` rounded to the nearest integer.
pub open spec fn rounded_sqrt(p: int) -> int {
    choose|r: int| is_rounded_sqrt(p, r)
}

/// At most one integer is the rounded square root of `p`.
pub proof fn lemma_rounded_sqrt_unique(p: int, r1: int, r2: int)
    requires
        is_rounded_sqrt(p, r1),
        is_rounded_sqrt(p, r2),
    ensures
        r1 == r2,
{
    assert(r1 == r2) by (nonlinear_arith)
        requires
            0 <= r1,
            4 * p <= 4 * r1 * r1 + 4 * r1,
            r1 == 0 || 4 * r1 * r1 - 4 * r1 + 1 <= 4 * p,
            0 <= r2,
            4 * p <= 4 * r2 * r2 + 4 * r2,
            r2 == 0 || 4 * r2 * r2 - 4 * r2 + 1 <= 4 * p,
    ;
}

/// Any witness of `is_rounded_sqrt` is the value of `rounded_sqrt`.
pub proof fn lemma_rounded_sqrt_agrees(p: int, r: int)
    requires
        is_rounded_sqrt(p, r),
    ensures
        rounded_sqrt(p) == r,
{
    assert(exists|x: int| is_rounded_sqrt(p, x));
    lemma_rounded_sqrt_unique(p, rounded_sqrt(p), r);
}

/// Every nonnegative integer has a rounded square root, so `rounded_sqrt`
/// denotes a genuine witness.
pub proof fn lemma_rounded_sqrt_exists(p: int)
    requires
        0 <= p,
    ensures
        is_rounded_sqrt(p, rounded_sqrt(p)),
    decreases p,
{
    if p == 0 {
        assert(is_rounded_sqrt(0, 0));
    } else {
        lemma_rounded_sqrt_exists(p - 1);
        let r = rounded_sqrt(p - 1);
        if 4 * p <= 4 * r * r + 4 * r {
            assert(is_rounded_sqrt(p, r)) by (nonlinear_arith)
                requires
                    1 <= p,
                    is_rounded_sqrt(p - 1, r),
                    4 * p <= 4 * r * r + 4 * r,
            ;
        } else {
            assert(is_rounded_sqrt(p, r + 1)) by (nonlinear_arith)
                requires
                    1 <= p,
                    is_rounded_sqrt(p - 1, r),
                    4 * p > 4 * r * r + 4 * r,
            ;
        }
        assert(exists|x: int| is_rounded_sqrt(p, x));
    }
}

/// For a positive product of two 64-bit amounts, the rounded square root is
/// at least one and fits well within 64 bits.
pub proof fn lemma_rounded_sqrt_bounds(p: int)
    requires
        1 <= p <= u64::MAX,
    ensures
        1 <= rounded_sqrt(p) <= 0x1_0000_0000,
{
    lemma_rounded_sqrt_exists(p);
    let r = rounded_sqrt(p);
    assert(1 <= r && r <= 0x1_0000_0000) by (nonlinear_arith)
        requires
            1 <= p <= 0xffff_ffff_ffff_ffffu64,
            is_rounded_sqrt(p, r),
    ;
}

/// The rounded square root, computed by binary search on the integer part.
pub fn sqrt_rounded(p: u64) -> (r: u64)
    ensures
        is_rounded_sqrt(p as int, r as int),
        r as int == rounded_sqrt(p as int),
        r <= 0x1_0000_0000u64,
{
    let mut lo: u64 = 0;
    let mut hi: u64 = 0x1_0000_0000;
    proof {
        assert((p as int) < 0x1_0000_0000 * 0x1_0000_0000);
    }
    while lo + 1 < hi
        invariant
            lo < hi <= 0x1_0000_0000u64,
            (lo as int) * (lo as int) <= p as int,
            (p as int) < (hi as int) * (hi as int),
        decreases hi - lo,
    {
        let mid: u64 = lo + (hi - lo) / 2;
        proof {
            lemma_u64_mul_fits_u128(mid, mid);
        }
        let sq: u128 = (mid as u128) * (mid as u128);
        if sq <= p as u128 {
            lo = mid;
        } else {
            hi = mid;
        }
    }
    // Now lo is the integer part of the root: lo^2 <= p < (lo + 1)^2.
    assert((p as int) < ((lo + 1) as int) * ((lo + 1) as int));
    proof {
        assert((lo as int) * ((lo + 1) as int) <= 0xffff_ffff * 0x1_0000_0000) by (nonlinear_arith)
            requires lo <= 0xffff_ffffu64,
        ;
    }
    let r = if p > lo * (lo + 1) { lo + 1 } else { lo };
    proof {
        assert(is_rounded_sqrt(p as int, r as int)) by (nonlinear_arith)
            requires
                (lo as int) * (lo as int) <= p as int,
                (p as int) < (lo as int + 1) * (lo as int + 1),
                r == if p > (lo as int) * (lo as int + 1) { lo as int + 1 } else { lo as int },
        ;
        lemma_rounded_sqrt_agrees(p as int, r as int);
    }
    r
}

/// The quotient `n / d` rounded to the nearest integer, halves rounded up:
/// `floor((2n + d) / (2d))`.
pub open spec fn div_round_half_up(n: int, d: int) -> int
    recommends
        0 < d,
{
    (2 * n + d) / (2 * d)
}

/// Rounding `n / d` to the nearest integer never exceeds `n`.
pub proof fn lemma_div_round_half_up_le(n: int, d: int)
    requires
        0 <= n,
        0 < d,
    ensures
        div_round_half_up(n, d) <= n,
{
    assert(2 * n + d < (2 * d) * (n + 1)) by (nonlinear_arith)
        requires
            0 <= n,
            0 < d,
    ;
    lemma_multiply_divide_lt(2 * n + d, 2 * d, n + 1);
}

/// With a fixed ratio bound, rounding to the nearest integer keeps the order
/// of the exact quotients: if `n1 / d1 <= n2 / d2` as exact ratios (stated by
/// cross-multiplication), the rounded quotients are ordered the same way.
pub proof fn lemma_div_round_half_up_ordered(n1: int, d1: int, n2: int, d2: int)
    requires
        0 <= n1,
        0 <= n2,
        0 < d1,
        0 < d2,
        n1 * d2 <= n2 * d1,
    ensures
        div_round_half_up(n1, d1) <= div_round_half_up(n2, d2),
{
    let q1 = (2 * n1 + d1) / (2 * d1);
    let r1 = (2 * n1 + d1) % (2 * d1);
    let q2 = (2 * n2 + d2) / (2 * d2);
    let r2 = (2 * n2 + d2) % (2 * d2);
    lemma_fundamental_div_mod(2 * n1 + d1, 2 * d1);
    lemma_mod_division_less_than_divisor(2 * n1 + d1, 2 * d1);
    lemma_fundamental_div_mod(2 * n2 + d2, 2 * d2);
    lemma_mod_division_less_than_divisor(2 * n2 + d2, 2 * d2);
    assert(q1 <= q2) by (nonlinear_arith)
        requires
            0 <= n1,
            0 <= n2,
            0 < d1,
            0 < d2,
            n1 * d2 <= n2 * d1,
            2 * n1 + d1 == (2 * d1) * q1 + r1,
            0 <= r1 < 2 * d1,
            2 * n2 + d2 == (2 * d2) * q2 + r2,
            0 <= r2 < 2 * d2,
    ;
}

/// Two exactly equal ratios have equal integer quotients: if `n1 / d1` and
/// `n2 / d2` agree as exact fractions (stated by cross-multiplication), their
/// floors agree too.
pub proof fn lemma_equal_ratios_equal_quotients(n1: int, d1: int, n2: int, d2: int)
    requires
        0 <= n1,
        0 <= n2,
        0 < d1,
        0 < d2,
        n1 * d2 == n2 * d1,
    ensures
        n1 / d1 == n2 / d2,
{
    let q1 = n1 / d1;
    let r1 = n1 % d1;
    let q2 = n2 / d2;
    let r2 = n2 % d2;
    lemma_fundamental_div_mod(n1, d1);
    lemma_mod_division_less_than_divisor(n1, d1);
    lemma_fundamental_div_mod(n2, d2);
    lemma_mod_division_less_than_divisor(n2, d2);
    assert(q1 == q2) by (nonlinear_arith)
        requires
            n1 == d1 * q1 + r1,
            0 <= r1 < d1,
            n2 == d2 * q2 + r2,
            0 <= r2 < d2,
            n1 * d2 == n2 * d1,
            0 < d1,
            0 < d2,
    ;
}

/// The rounded quotient of `n / d` in unsigned 128-bit arithmetic.
pub fn div_round_nearest(n: u128, d: u128) -> (r: u128)
    requires
        0 < d,
        2 * n + 2 * d <= u128::MAX,
    ensures
        r as int == div_round_half_up(n as int, d as int),
        r <= n,
{
    let q = (2 * n + d) / (2 * d);
    proof {
        lemma_div_round_half_up_le(n as int, d as int);
    }
    q
}

/// A product of two 64-bit values always fits in 128 bits.
pub proof fn lemma_u64_mul_fits_u128(x: u64, y: u64)
    ensures
        (x as int) * (y as int) <= u128::MAX,
        0 <= (x as int) * (y as int),
{
    assert(0 <= (x as int) * (y as int) <= 0xffff_ffff_ffff_ffff * 0xffff_ffff_ffff_ffff)
        by (nonlinear_arith)
        requires
            x <= 0xffff_ffff_ffff_ffffu64,
            y <= 0xffff_ffff_ffff_ffffu64,
    ;
}

} // verus!

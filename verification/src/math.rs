//! Rounding-sensitive integer arithmetic shared by the accounting and the
//! swap engine: a floor square root and a widening multiply-then-divide.
//! Every operation here floors; callers rely on that direction of rounding.

use vstd::prelude::*;

verus! {

/// `r` is the floor of the square root of `n`.
pub open spec fn is_sqrt_floor(n: int, r: int) -> bool {
    0 <= r && r * r <= n < (r + 1) * (r + 1)
}

/// Floor square root of a 128-bit value, by bisection. The result always
/// fits in 64 bits because the radicand is below `2^128`.
pub fn sqrt_floor_u128(n: u128) -> (r: u64)
    ensures
        is_sqrt_floor(n as int, r as int),
{
    let mut lo: u128 = 0;
    let mut hi: u128 = 0x1_0000_0000_0000_0000;
    proof {
        assert(hi * hi > n as int) by (nonlinear_arith)
            requires
                hi == 0x1_0000_0000_0000_0000,
                n <= u128::MAX,
        ;
    }
    while hi - lo > 1
        invariant
            lo < hi <= 0x1_0000_0000_0000_0000,
            lo * lo <= n as int,
            hi * hi > n as int,
        decreases hi - lo,
    {
        let mid: u128 = lo + (hi - lo) / 2;
        proof {
            assert(mid * mid <= u128::MAX) by (nonlinear_arith)
                requires
                    mid < 0x1_0000_0000_0000_0000,
            ;
        }
        let sq: u128 = mid * mid;
        if sq <= n {
            lo = mid;
        } else {
            hi = mid;
        }
    }
    proof {
        assert(lo + 1 == hi);
        assert((lo + 1) * (lo + 1) > n as int);
    }
    lo as u64
}

/// Floor of `a * b / d`, computed without overflow in 128-bit arithmetic.
/// The quotient is returned in 128 bits; callers narrow it once they know
/// their own bound on it.
pub fn mul_div_u64(a: u64, b: u64, d: u64) -> (r: u128)
    requires
        d > 0,
    ensures
        r == a as int * b as int / d as int,
{
    proof {
        assert(a as int * b as int <= u128::MAX) by (nonlinear_arith)
            requires
                a <= u64::MAX,
                b <= u64::MAX,
        ;
    }
    let p: u128 = (a as u128) * (b as u128);
    p / (d as u128)
}

/// A quotient with a numerator factor bounded by another stays bounded:
/// if `x <= y` then `x * s / d <= y * s / d`.
pub proof fn lemma_mul_div_ordered(x: int, y: int, s: int, d: int)
    requires
        0 <= x <= y,
        0 <= s,
        0 < d,
    ensures
        x * s / d <= y * s / d,
{
    assert(x * s <= y * s) by (nonlinear_arith)
        requires
            0 <= x <= y,
            0 <= s,
    ;
    vstd::arithmetic::div_mod::lemma_div_is_ordered(x * s, y * s, d);
}

/// Floor division stays below a bound that the numerator's product form
/// stays below: if `x < c * d` then `x / d < c`.
pub proof fn lemma_div_below(x: int, d: int, c: int)
    by (nonlinear_arith)
    requires
        0 <= x,
        0 < d,
        x < c * d,
    ensures
        x / d < c,
{
}

/// What floor division returns, as the two-sided product bound:
/// `(x / d) * d <= x < (x / d + 1) * d`.
pub proof fn lemma_div_bounds(x: int, d: int)
    by (nonlinear_arith)
    requires
        0 <= x,
        0 < d,
    ensures
        (x / d) * d <= x,
        x < (x / d + 1) * d,
        0 <= x / d,
{
}

} // verus!

//! Integer arithmetic shared by the pool operations: floored ratios with a
//! 128-bit intermediate, and the floored square root.

use vstd::arithmetic::div_mod::{lemma_fundamental_div_mod, lemma_mod_bound};
use vstd::prelude::*;

verus! {

/// `floor(a * b / c)` over the mathematical integers.
pub open spec fn mul_div(a: int, b: int, c: int) -> int {
    (a * b) / c
}

/// `r` is the floored square root of `n`.
pub open spec fn is_sqrt_floor(n: int, r: int) -> bool {
    0 <= r && r * r <= n < (r + 1) * (r + 1)
}

/// The floored square root of `n` (meaningful for `n >= 0`). Its value on a
/// given number follows from `lemma_sqrt_floor_unique`.
pub open spec fn sqrt_floor(n: int) -> int {
    choose|r: int| is_sqrt_floor(n, r)
}

/// A floored quotient times its divisor misses the dividend by the remainder,
/// which is less than the divisor.
pub proof fn lemma_mul_div_bounds(a: int, b: int, c: int)
    requires
        0 <= a,
        0 <= b,
        0 < c,
    ensures
        0 <= mul_div(a, b, c),
        mul_div(a, b, c) * c + (a * b) % c == a * b,
        0 <= (a * b) % c < c,
        mul_div(a, b, c) * c <= a * b < (mul_div(a, b, c) + 1) * c,
{
    let p = a * b;
    let q = p / c;
    assert(0 <= p) by (nonlinear_arith)
        requires
            p == a * b,
            0 <= a,
            0 <= b,
    ;
    lemma_fundamental_div_mod(p, c);
    lemma_mod_bound(p, c);
    assert(c * q == q * c) by (nonlinear_arith);
    assert((q + 1) * c == q * c + c) by (nonlinear_arith);
    assert(0 <= q) by (nonlinear_arith)
        requires
            q * c + p % c == p,
            0 <= p,
            p % c < c,
            0 < c,
    ;
}

/// Scaling by a ratio of at most one does not enlarge: `floor(a * b / c) <= a`
/// whenever `b <= c`.
pub proof fn lemma_mul_div_le(a: int, b: int, c: int)
    requires
        0 <= a,
        0 <= b <= c,
        0 < c,
    ensures
        mul_div(a, b, c) <= a,
{
    lemma_mul_div_bounds(a, b, c);
    let q = mul_div(a, b, c);
    assert(q <= a) by (nonlinear_arith)
        requires
            q * c <= a * b,
            0 <= a,
            0 <= b <= c,
            0 < c,
            0 <= q,
    ;
}

/// A floored proper part of a positive amount is less than the amount.
pub proof fn lemma_mul_div_lt(x: int, n: int, d: int)
    requires
        0 < x,
        0 <= n < d,
    ensures
        mul_div(x, n, d) < x,
{
    lemma_mul_div_bounds(x, n, d);
    let q = mul_div(x, n, d);
    assert(q < x) by (nonlinear_arith)
        requires
            q * d <= x * n,
            0 < x,
            0 <= n < d,
            0 <= q,
    ;
}

/// Two floored parts of the same fraction `n / d`, taken of `x` and of `y`,
/// are in the ratio of `x` to `y` as closely as whole units allow.
pub proof fn lemma_floored_parts_keep_ratio(p: int, x: int, q: int, y: int, n: int, d: int)
    requires
        0 < x,
        0 < y,
        0 < d,
        0 <= n,
        0 <= p,
        0 <= q,
        p * d <= x * n,
        y * n < (q + 1) * d,
    ensures
        p * y < (q + 1) * x,
{
    assert((p * d) * y <= (x * n) * y) by (nonlinear_arith)
        requires
            p * d <= x * n,
            0 < y,
    ;
    assert((y * n) * x < ((q + 1) * d) * x) by (nonlinear_arith)
        requires
            y * n < (q + 1) * d,
            0 < x,
    ;
    assert((x * n) * y == (y * n) * x) by (nonlinear_arith);
    assert((p * d) * y == (p * y) * d) by (nonlinear_arith);
    assert(((q + 1) * d) * x == ((q + 1) * x) * d) by (nonlinear_arith);
    assert(p * y < (q + 1) * x) by (nonlinear_arith)
        requires
            (p * y) * d < ((q + 1) * x) * d,
            0 < d,
    ;
}

/// Every natural number has a floored square root.
pub proof fn lemma_sqrt_floor_exists(n: int)
    requires
        0 <= n,
    ensures
        is_sqrt_floor(n, sqrt_floor(n)),
    decreases n,
{
    if n == 0 {
        assert(is_sqrt_floor(0, 0));
    } else {
        lemma_sqrt_floor_exists(n - 1);
        let r = sqrt_floor(n - 1);
        assert((r + 2) * (r + 2) == (r + 1) * (r + 1) + 2 * r + 3) by (nonlinear_arith);
        if (r + 1) * (r + 1) <= n {
            assert(is_sqrt_floor(n, r + 1));
        } else {
            assert(is_sqrt_floor(n, r));
        }
    }
}

/// The floored square root is unique.
pub proof fn lemma_sqrt_floor_unique(n: int, r: int)
    requires
        is_sqrt_floor(n, r),
    ensures
        r == sqrt_floor(n),
{
    lemma_sqrt_floor_exists(n);
    let s = sqrt_floor(n);
    assert(r == s) by (nonlinear_arith)
        requires
            0 <= r,
            0 <= s,
            r * r <= n < (r + 1) * (r + 1),
            s * s <= n < (s + 1) * (s + 1),
    ;
}

/// `floor(a * b / c)`, computed without loss through a 128-bit product.
/// The divisor is wide because it may be the sum of two 64-bit amounts.
/// There is no quotient when `c` is zero.
pub fn mul_div_floor(a: u64, b: u64, c: u128) -> (q: Option<u128>)
    ensures
        q is None <==> c == 0,
        q matches Some(v) ==> v == mul_div(a as int, b as int, c as int),
{
    if c == 0 {
        return None;
    }
    assert(a * b <= u64::MAX * u64::MAX) by (nonlinear_arith)
        requires
            0 <= a <= u64::MAX,
            0 <= b <= u64::MAX,
    ;
    let wide: u128 = (a as u128) * (b as u128);
    Some(wide / c)
}

/// The floored square root of a 128-bit number, by bisection.
pub fn isqrt(n: u128) -> (r: u64)
    ensures
        r == sqrt_floor(n as int),
        r * r <= n < (r + 1) * (r + 1),
{
    let mut lo: u128 = 0;
    let mut hi: u128 = 0x1_0000_0000_0000_0000u128;
    while hi - lo > 1
        invariant
            lo < hi <= 0x1_0000_0000_0000_0000u128,
            lo * lo <= n < hi * hi,
        decreases hi - lo,
    {
        let mid: u128 = lo + (hi - lo) / 2;
        assert(mid * mid <= 0xffff_ffff_ffff_ffffu128 * 0xffff_ffff_ffff_ffffu128)
            by (nonlinear_arith)
            requires
                0 <= mid <= 0xffff_ffff_ffff_ffffu128,
        ;
        if mid * mid <= n {
            lo = mid;
        } else {
            hi = mid;
        }
    }
    proof {
        assert(hi == lo + 1);
        lemma_sqrt_floor_unique(n as int, lo as int);
    }
    lo as u64
}

} // verus!

use vstd::prelude::*;
use vstd::arithmetic::div_mod::{lemma_div_by_multiple, lemma_div_pos_is_pos, lemma_multiply_divide_le};
use vstd::arithmetic::mul::{lemma_mul_is_commutative, lemma_mul_unary_negation};

verus! {

/// Fixed-point scale: one world unit (pixel) is `SCALE` fixed-point steps.
pub const SCALE: i64 = 1000;

/// Magnitude of an integer.
pub open spec fn iabs(t: int) -> int {
    if t < 0 {
        -t
    } else {
        t
    }
}

/// Division that truncates toward zero, as the machine division does.
pub open spec fn fx(t: int, d: int) -> int
    recommends
        d > 0,
{
    if t >= 0 {
        t / d
    } else {
        -((-t) / d)
    }
}

/// For a nonnegative dividend bounded by `k` times the divisor, the quotient
/// lies in `[0, k]`.
pub proof fn lemma_div_bound(n: int, d: int, k: int)
    requires
        0 <= n,
        0 < d,
        n <= k * d,
    ensures
        0 <= n / d <= k,
{
    lemma_div_pos_is_pos(n, d);
    lemma_mul_is_commutative(k, d);
    lemma_multiply_divide_le(n, d, k);
}

/// A product of two bounded factors is bounded by the product of the bounds.
pub proof fn lemma_mul_abs_bound(t: int, u: int, bt: int, bu: int)
    requires
        -bt <= t <= bt,
        -bu <= u <= bu,
    ensures
        -(bt * bu) <= t * u <= bt * bu,
{
    assert(-(bt * bu) <= t * u <= bt * bu) by (nonlinear_arith)
        requires -bt <= t <= bt, -bu <= u <= bu;
}

/// Truncating division keeps a symmetric bound: if `|t| <= k * d` then
/// `|fx(t, d)| <= k`.
pub proof fn lemma_fx_bound(t: int, d: int, k: int)
    requires
        0 < d,
        0 <= k,
        -(k * d) <= t <= k * d,
    ensures
        -k <= fx(t, d) <= k,
{
    if t >= 0 {
        lemma_div_bound(t, d, k);
    } else {
        lemma_div_bound(-t, d, k);
    }
}

/// Dividing an exact multiple is exact.
pub proof fn lemma_fx_exact(t: int, d: int)
    requires
        0 < d,
    ensures
        fx(t * d, d) == t,
{
    if t >= 0 {
        lemma_div_by_multiple(t, d);
    } else {
        lemma_div_by_multiple(-t, d);
        lemma_mul_unary_negation(t, d);
    }
}

/// Truncating division of fixed-point values.
pub fn fxdiv(t: i64, d: i64) -> (r: i64)
    requires
        d > 0,
        t > -0x4000_0000_0000_0000,
    ensures
        r == fx(t as int, d as int),
{
    if t >= 0 {
        t / d
    } else {
        -((-t) / d)
    }
}

/// Floor of the square root of `n`.
pub fn isqrt(n: u64) -> (r: u64)
    ensures
        r * r <= n,
        n < (r + 1) * (r + 1),
{
    let mut lo: u64 = 0;
    let mut hi: u64 = 0x1_0000_0000;
    while lo + 1 < hi
        invariant
            lo < hi <= 0x1_0000_0000u64,
            lo * lo <= n,
            n < hi * hi,
        decreases hi - lo,
    {
        let mid: u64 = lo + (hi - lo) / 2;
        assert(mid * mid <= 0xffff_ffffu64 * 0xffff_ffffu64) by (nonlinear_arith)
            requires mid <= 0xffff_ffffu64;
        if mid * mid <= n {
            lo = mid;
        } else {
            hi = mid;
        }
    }
    lo
}

} // verus!

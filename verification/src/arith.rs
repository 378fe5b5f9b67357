//! Exact integer arithmetic used by the geometry: floor square roots and the
//! comparison of products that do not fit a machine word.

use vstd::prelude::*;

verus! {

/// `r` is the integer part of the square root of `n`.
pub open spec fn is_floor_sqrt(r: int, n: int) -> bool {
    0 <= r && r * r <= n && n < (r + 1) * (r + 1)
}

/// The integer part of the square root of `n`, for `n >= 0`.
pub open spec fn floor_sqrt(n: int) -> int {
    choose|r: int| is_floor_sqrt(r, n)
}

/// Squaring is monotone on the non-negative integers.
pub proof fn lemma_square_monotone(a: int, b: int)
    requires
        0 <= a <= b,
    ensures
        a * a <= b * b,
{
    assert(a * a <= a * b) by (nonlinear_arith)
        requires
            0 <= a <= b,
    ;
    assert(a * b <= b * b) by (nonlinear_arith)
        requires
            0 <= a <= b,
    ;
}

/// The product of two numbers of magnitude at most `m` has magnitude at most
/// `m * m`.
pub proof fn lemma_product_bound(a: int, b: int, m: int)
    requires
        -m <= a <= m,
        -m <= b <= m,
    ensures
        -(m * m) <= a * b <= m * m,
{
    assert(-(m * m) <= a * b <= m * m) by (nonlinear_arith)
        requires
            -m <= a <= m,
            -m <= b <= m,
    ;
}

/// A number has at most one floor square root, and `floor_sqrt` names it.
pub proof fn lemma_floor_sqrt_unique(r: int, n: int)
    requires
        is_floor_sqrt(r, n),
    ensures
        floor_sqrt(n) == r,
{
    let s = floor_sqrt(n);
    assert(is_floor_sqrt(s, n));
    if s < r {
        lemma_square_monotone(s + 1, r);
    } else if r < s {
        lemma_square_monotone(r + 1, s);
    }
}

/// Every non-negative number has a floor square root.
pub proof fn lemma_floor_sqrt_exists(n: int)
    requires
        n >= 0,
    ensures
        is_floor_sqrt(floor_sqrt(n), n),
    decreases n,
{
    if n == 0 {
        assert(is_floor_sqrt(0, 0));
    } else {
        lemma_floor_sqrt_exists(n - 1);
        let r = floor_sqrt(n - 1);
        if (r + 1) * (r + 1) <= n {
            assert((r + 2) * (r + 2) > (r + 1) * (r + 1)) by (nonlinear_arith)
                requires
                    r >= 0,
            ;
            assert(is_floor_sqrt(r + 1, n));
        } else {
            assert(is_floor_sqrt(r, n));
        }
    }
}

/// Computes the integer part of the square root of `n`.
pub fn isqrt(n: u64) -> (r: u32)
    ensures
        is_floor_sqrt(r as int, n as int),
        r as int == floor_sqrt(n as int),
{
    let mut lo: u64 = 0;
    let mut hi: u64 = 0x1_0000_0000;
    while hi - lo > 1
        invariant
            lo < hi <= 0x1_0000_0000,
            lo * lo <= n,
            n < hi * hi,
        decreases hi - lo,
    {
        let mid: u64 = lo + (hi - lo) / 2;
        assert(mid * mid < 0x1_0000_0000_0000_0000) by (nonlinear_arith)
            requires
                0 <= mid < 0x1_0000_0000,
        ;
        let sq: u128 = (mid as u128) * (mid as u128);
        if sq <= n as u128 {
            lo = mid;
        } else {
            hi = mid;
        }
    }
    proof {
        lemma_floor_sqrt_unique(lo as int, n as int);
    }
    lo as u32
}

/// Multiplies a 128-bit number by a 64-bit number without losing bits: the
/// product is `hi * 2^64 + lo`.
fn mul_wide(p: u128, c: u64) -> (r: (u128, u64))
    ensures
        r.0 * 0x1_0000_0000_0000_0000 + r.1 == p * c,
{
    let upper: u128 = p / 0x1_0000_0000_0000_0000;
    let lower: u128 = p % 0x1_0000_0000_0000_0000;
    assert(lower * c <= 0xffff_ffff_ffff_ffff * 0xffff_ffff_ffff_ffff) by (nonlinear_arith)
        requires
            0 <= lower <= 0xffff_ffff_ffff_ffff,
            0 <= c <= 0xffff_ffff_ffff_ffff,
    ;
    assert(upper * c <= 0xffff_ffff_ffff_ffff * 0xffff_ffff_ffff_ffff) by (nonlinear_arith)
        requires
            0 <= upper <= 0xffff_ffff_ffff_ffff,
            0 <= c <= 0xffff_ffff_ffff_ffff,
    ;
    let low: u128 = lower * (c as u128);
    let high: u128 = upper * (c as u128);
    let carry: u128 = low / 0x1_0000_0000_0000_0000;
    let lo: u64 = (low % 0x1_0000_0000_0000_0000) as u64;
    let hi: u128 = high + carry;
    assert(hi * 0x1_0000_0000_0000_0000 + lo == p * c) by (nonlinear_arith)
        requires
            hi == upper * c + carry,
            carry * 0x1_0000_0000_0000_0000 + lo == lower * c,
            p == upper * 0x1_0000_0000_0000_0000 + lower,
    ;
    (hi, lo)
}

/// Decides whether `a * p < b * q`, where the products may exceed 128 bits.
pub fn product_lt(a: u64, p: u128, b: u64, q: u128) -> (r: bool)
    ensures
        r == (a * p < b * q),
{
    let (h1, l1) = mul_wide(p, a);
    let (h2, l2) = mul_wide(q, b);
    assert(a * p == p * a && b * q == q * b) by (nonlinear_arith);
    h1 < h2 || (h1 == h2 && l1 < l2)
}

} // verus!

//! Fixed-point arithmetic: ratios in millionths, capped sums and products,
//! and integer square roots.

use vstd::prelude::*;

verus! {

/// `v`, or the highest 128-bit number if `v` lies above it.
pub open spec fn capped128(v: nat) -> u128 {
    if v > u128::MAX {
        u128::MAX
    } else {
        v as u128
    }
}

/// The sum, capped at the highest 128-bit number.
pub fn add_capped(a: u128, b: u128) -> (r: u128)
    ensures
        r == capped128(a as nat + b as nat),
{
    match a.checked_add(b) {
        Some(v) => v,
        None => u128::MAX,
    }
}

/// The product, capped at the highest 128-bit number.
pub fn mul_capped(a: u128, b: u128) -> (r: u128)
    ensures
        r == capped128(a as nat * b as nat),
{
    match a.checked_mul(b) {
        Some(v) => v,
        None => u128::MAX,
    }
}

/// The integer square root: the greatest number whose square is at most `x`.
pub open spec fn is_sqrt_of(r: nat, x: nat) -> bool {
    r * r <= x && x < (r + 1) * (r + 1)
}

/// The integer square root, rounded down.
pub fn isqrt(x: u128) -> (r: u64)
    ensures
        is_sqrt_of(r as nat, x as nat),
{
    let mut lo: u128 = 0;
    let mut hi: u128 = 0x1_0000_0000_0000_0000;
    assert(hi * hi > x) by (nonlinear_arith)
        requires
            hi == 0x1_0000_0000_0000_0000,
            x <= u128::MAX,
    ;
    while hi - lo > 1
        invariant
            lo < hi <= 0x1_0000_0000_0000_0000,
            lo * lo <= x,
            x < hi * hi,
        decreases hi - lo,
    {
        let mid: u128 = lo + (hi - lo) / 2;
        assert(mid * mid <= u128::MAX) by (nonlinear_arith)
            requires
                mid < 0x1_0000_0000_0000_0000,
        ;
        if mid * mid <= x {
            lo = mid;
        } else {
            hi = mid;
        }
    }
    lo as u64
}

/// `num / den` in millionths, rounded down and capped at the highest
/// 128-bit number.
pub open spec fn ratio_in_micros(num: nat, den: nat) -> u128 {
    capped128((num * 1_000_000) / den)
}

/// `num / den` in millionths, rounded down and capped.
pub fn ratio_micros(num: u128, den: u64) -> (r: u128)
    requires
        den > 0,
    ensures
        r == ratio_in_micros(num as nat, den as nat),
{
    let d: u128 = den as u128;
    let q = num / d;
    let rem = num % d;
    let whole = mul_capped(q, 1_000_000);
    proof {
        assert(rem * 1_000_000 <= u64::MAX * 1_000_000) by (nonlinear_arith)
            requires
                rem < d,
                d <= u64::MAX,
        ;
        assert((num * 1_000_000) / (d as int) == q * 1_000_000 + (rem * 1_000_000) / (d as int))
            by (nonlinear_arith)
            requires
                d > 0,
                q == num / d,
                rem == num % d,
        ;
    }
    let part: u128 = (rem * 1_000_000) / d;
    add_capped(whole, part)
}

} // verus!

//! Fixed-point scalar arithmetic.
//!
//! A scalar is an `i64` counting steps of `1/SCALE` of a world unit.
//! Every operation first computes the wide (128-bit) exact result, divides
//! it back to scalar scale where needed (truncating toward zero, as the
//! corresponding hardware float operations round), and then saturates it
//! into `[-MAXV, MAXV]`. This makes every operation total, and lets each
//! executable function carry an `ensures` that pins its result to a
//! spec-level twin exactly.

use vstd::prelude::*;
use vstd::arithmetic::div_mod::lemma_div_nonincreasing;

verus! {

/// Number of fixed-point steps in one world unit (2^16).
pub const SCALE: i64 = 65536;

/// The scalar one.
pub const ONE: i64 = 65536;

/// Every arithmetic result is saturated into `[-MAXV, MAXV]` (2^44, about
/// 2.7e8 world units): large enough for any reasonable scene, small enough
/// that wide intermediates never overflow 128 bits.
pub const MAXV: i64 = 17592186044416;

/// Division truncating toward zero, for a positive divisor.
pub open spec fn tdiv(a: int, b: int) -> int
    recommends
        b > 0,
{
    if a >= 0 {
        a / b
    } else {
        -((-a) / b)
    }
}

/// Division truncating toward zero, for a divisor of either sign.
pub open spec fn tdiv_s(a: int, b: int) -> int
    recommends
        b != 0,
{
    if b > 0 {
        tdiv(a, b)
    } else {
        tdiv(-a, -b)
    }
}

/// Saturation into the scalar range `[-MAXV, MAXV]`.
pub open spec fn clip(x: int) -> int {
    if x > MAXV {
        MAXV as int
    } else if x < -(MAXV as int) {
        -(MAXV as int)
    } else {
        x
    }
}

/// A value already in the scalar range.
pub open spec fn in_range(x: int) -> bool {
    -(MAXV as int) <= x <= MAXV as int
}

pub open spec fn spec_fx_add(a: int, b: int) -> int {
    clip(a + b)
}

pub open spec fn spec_fx_sub(a: int, b: int) -> int {
    clip(a - b)
}

pub open spec fn spec_fx_mul(a: int, b: int) -> int {
    clip(tdiv(a * b, SCALE as int))
}

/// Division of scalars; division by zero is defined as zero so that the
/// operation is total (callers that care guard the divisor themselves).
pub open spec fn spec_fx_div(a: int, b: int) -> int {
    if b == 0 {
        0
    } else {
        clip(tdiv_s(a * (SCALE as int), b))
    }
}

/// Largest `r` with `r * r <= n` (and 0 for negative `n`).
pub open spec fn sqrt_floor(n: int) -> int
    decreases n,
{
    if n <= 0 {
        0
    } else {
        let r = sqrt_floor(n - 1);
        if (r + 1) * (r + 1) <= n {
            r + 1
        } else {
            r
        }
    }
}

/// Square root of a scalar: the exact root of `a * SCALE` rounded down,
/// which is the fixed-point representation of `sqrt(a / SCALE)` rounded
/// down. Negative inputs give zero.
pub open spec fn spec_fx_sqrt(a: int) -> int {
    if a <= 0 {
        0
    } else {
        sqrt_floor(a * (SCALE as int))
    }
}

pub open spec fn spec_clamp01(x: int) -> int {
    if x < 0 {
        0
    } else if x > ONE {
        ONE as int
    } else {
        x
    }
}

/// Left-to-right product of `e` copies of `b` (fixed-point), starting at one.
pub open spec fn spec_fx_pow(b: int, e: nat) -> int
    decreases e,
{
    if e == 0 {
        ONE as int
    } else {
        spec_fx_mul(spec_fx_pow(b, (e - 1) as nat), b)
    }
}

/// A whole number of world units as a scalar.
pub open spec fn spec_to_fx(k: int) -> int {
    clip(k * (SCALE as int))
}

pub proof fn lemma_sqrt_floor_bounds(n: int)
    requires
        n >= 0,
    ensures
        sqrt_floor(n) >= 0,
        sqrt_floor(n) * sqrt_floor(n) <= n,
        n < (sqrt_floor(n) + 1) * (sqrt_floor(n) + 1),
    decreases n,
{
    if n > 0 {
        lemma_sqrt_floor_bounds(n - 1);
        let r = sqrt_floor(n - 1);
        if (r + 1) * (r + 1) <= n {
            assert(sqrt_floor(n) == r + 1);
            assert(n <= (r + 1) * (r + 1));
            assert((r + 1) * (r + 1) < (r + 2) * (r + 2)) by (nonlinear_arith)
                requires
                    r >= 0;
        } else {
            assert(sqrt_floor(n) == r);
        }
    }
}

pub proof fn lemma_sqrt_floor_unique(n: int, r: int)
    requires
        n >= 0,
        r >= 0,
        r * r <= n,
        n < (r + 1) * (r + 1),
    ensures
        r == sqrt_floor(n),
{
    lemma_sqrt_floor_bounds(n);
    let s = sqrt_floor(n);
    if r < s {
        assert((r + 1) * (r + 1) <= s * s) by (nonlinear_arith)
            requires
                0 <= r + 1 <= s;
        assert(false);
    }
    if s < r {
        assert((s + 1) * (s + 1) <= r * r) by (nonlinear_arith)
            requires
                0 <= s + 1 <= r;
        assert(false);
    }
}

/// Saturate a wide intermediate into the scalar range.
fn clip_i128(q: i128) -> (r: i64)
    ensures
        r as int == clip(q as int),
        in_range(r as int),
{
    if q > MAXV as i128 {
        MAXV
    } else if q < -(MAXV as i128) {
        -MAXV
    } else {
        q as i64
    }
}

/// Division of wide values truncating toward zero (positive divisor).
fn tdiv_i128(a: i128, b: i128) -> (r: i128)
    requires
        b > 0,
        a > i128::MIN,
    ensures
        r as int == tdiv(a as int, b as int),
{
    if a >= 0 {
        let q: u128 = (a as u128) / (b as u128);
        proof {
            lemma_div_nonincreasing(a as int, b as int);
        }
        q as i128
    } else {
        let n: u128 = (-a) as u128;
        let q: u128 = n / (b as u128);
        proof {
            lemma_div_nonincreasing(n as int, b as int);
        }
        -(q as i128)
    }
}

/// Saturating fixed-point addition.
pub fn fx_add(a: i64, b: i64) -> (r: i64)
    ensures
        r as int == spec_fx_add(a as int, b as int),
{
    clip_i128(a as i128 + b as i128)
}

/// Saturating fixed-point subtraction.
pub fn fx_sub(a: i64, b: i64) -> (r: i64)
    ensures
        r as int == spec_fx_sub(a as int, b as int),
{
    clip_i128(a as i128 - b as i128)
}

/// Saturating fixed-point multiplication, truncating toward zero.
pub fn fx_mul(a: i64, b: i64) -> (r: i64)
    ensures
        r as int == spec_fx_mul(a as int, b as int),
{
    proof {
        assert((a as i128) * (b as i128) <= i128::MAX && (a as i128) * (b as i128) > i128::MIN)
            by (nonlinear_arith)
            requires
                i64::MIN <= a <= i64::MAX,
                i64::MIN <= b <= i64::MAX;
    }
    let p: i128 = (a as i128) * (b as i128);
    let q: i128 = tdiv_i128(p, SCALE as i128);
    clip_i128(q)
}

/// Saturating fixed-point division, truncating toward zero; zero divisor
/// gives zero.
pub fn fx_div(a: i64, b: i64) -> (r: i64)
    ensures
        r as int == spec_fx_div(a as int, b as int),
{
    if b == 0 {
        return 0;
    }
    proof {
        assert((a as i128) * (SCALE as i128) <= i128::MAX && (a as i128) * (SCALE as i128)
            > i128::MIN) by (nonlinear_arith)
            requires
                i64::MIN <= a <= i64::MAX;
    }
    let p: i128 = (a as i128) * (SCALE as i128);
    let q: i128 = if b > 0 {
        tdiv_i128(p, b as i128)
    } else {
        tdiv_i128(-p, -(b as i128))
    };
    clip_i128(q)
}

/// Binary search for the integer square root of a value below 2^80.
fn isqrt_u128(n: u128) -> (r: u128)
    requires
        n < 0x100000000000000000000,
    ensures
        r as int == sqrt_floor(n as int),
        r * r <= n,
        n < (r + 1) * (r + 1),
        r <= 0x10000000000,
{
    let mut lo: u128 = 0;
    let mut hi: u128 = 0x10000000000;
    while hi - lo > 1
        invariant
            lo < hi,
            hi <= 0x10000000000,
            lo * lo <= n,
            n < hi * hi,
            n < 0x100000000000000000000,
        decreases hi - lo,
    {
        let mid: u128 = lo + (hi - lo) / 2;
        proof {
            assert(mid * mid < 0x100000000000000000000 * 2) by (nonlinear_arith)
                requires
                    mid <= 0x10000000000u128;
        }
        if mid * mid <= n {
            lo = mid;
        } else {
            hi = mid;
        }
    }
    proof {
        lemma_sqrt_floor_unique(n as int, lo as int);
    }
    lo
}

/// Saturating fixed-point square root; negative inputs give zero.
pub fn fx_sqrt(a: i64) -> (r: i64)
    ensures
        r as int == spec_fx_sqrt(a as int),
        r >= 0,
{
    if a <= 0 {
        return 0;
    }
    proof {
        assert((a as u128) * (SCALE as u128) < 0x100000000000000000000) by (nonlinear_arith)
            requires
                0 < (a as u128),
                (a as u128) < 0x8000000000000000u128;
    }
    let n: u128 = (a as u128) * (SCALE as u128);
    let s: u128 = isqrt_u128(n);
    s as i64
}

/// Clamp a scalar into `[0, ONE]`.
pub fn fx_clamp01(x: i64) -> (r: i64)
    ensures
        r as int == spec_clamp01(x as int),
{
    if x < 0 {
        0
    } else if x > ONE {
        ONE
    } else {
        x
    }
}

/// Fixed-point power with a whole-number exponent, multiplying left to right.
pub fn fx_pow(b: i64, e: u32) -> (r: i64)
    ensures
        r as int == spec_fx_pow(b as int, e as nat),
{
    let mut acc: i64 = ONE;
    let mut k: u32 = 0;
    while k < e
        invariant
            k <= e,
            acc as int == spec_fx_pow(b as int, k as nat),
        decreases e - k,
    {
        acc = fx_mul(acc, b);
        k = k + 1;
    }
    acc
}

/// A whole number of world units as a scalar (saturating).
pub fn to_fx(k: i64) -> (r: i64)
    ensures
        r as int == spec_to_fx(k as int),
{
    proof {
        assert((k as i128) * (SCALE as i128) <= i128::MAX && (k as i128) * (SCALE as i128)
            > i128::MIN) by (nonlinear_arith)
            requires
                i64::MIN <= k <= i64::MAX;
    }
    clip_i128((k as i128) * (SCALE as i128))
}

} // verus!

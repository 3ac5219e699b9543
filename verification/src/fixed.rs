//! The 16.16 fixed-point scalar that the rendering core computes with.
//!
//! A value represents the real number `raw / FX_ONE`. Every operation
//! saturates at `FX_MAX` / `-FX_MAX` instead of wrapping or panicking, and
//! each executable operation is specified exactly by a spec-level mirror
//! (`fx_add_s`, `fx_mul_s`, ...), so contracts further up the pipeline can
//! state results to the last tick.

use vstd::prelude::*;

verus! {

use vstd::arithmetic::mul::lemma_mul_upper_bound;

/// Raw ticks per unit: the scalar has 16 fractional bits.
pub const FX_ONE: i64 = 65536;

/// Largest raw value; arithmetic saturates at `FX_MAX` and `-FX_MAX`.
pub const FX_MAX: i64 = 9223372036854775807;

/// Absolute value over the mathematical integers.
pub open spec fn sabs(x: int) -> int {
    if x < 0 {
        -x
    } else {
        x
    }
}

/// True iff `x` is representable as a raw scalar value.
pub open spec fn fits(x: int) -> bool {
    -(FX_MAX as int) <= x <= FX_MAX as int
}

/// Clamp an unbounded intermediate back into the representable range.
pub open spec fn sat(x: int) -> int {
    if x > FX_MAX as int {
        FX_MAX as int
    } else if x < -(FX_MAX as int) {
        -(FX_MAX as int)
    } else {
        x
    }
}

/// Integer division rounding toward zero (the scalar's rounding);
/// division by zero is defined as zero.
pub open spec fn tdiv(a: int, b: int) -> int {
    if b == 0 {
        0
    } else {
        let q = sabs(a) / sabs(b);
        if (a < 0) != (b < 0) {
            -q
        } else {
            q
        }
    }
}

pub open spec fn fx_add_s(a: int, b: int) -> int {
    sat(a + b)
}

pub open spec fn fx_sub_s(a: int, b: int) -> int {
    sat(a - b)
}

pub open spec fn fx_neg_s(a: int) -> int {
    sat(-a)
}

pub open spec fn fx_abs_s(a: int) -> int {
    sat(sabs(a))
}

pub open spec fn fx_mul_s(a: int, b: int) -> int {
    sat(tdiv(a * b, FX_ONE as int))
}

pub open spec fn fx_div_s(a: int, b: int) -> int {
    if b == 0 {
        0
    } else {
        sat(tdiv(a * (FX_ONE as int), b))
    }
}

pub open spec fn fx_clamp_s(x: int, lo: int, hi: int) -> int {
    if x < lo {
        lo
    } else if x > hi {
        hi
    } else {
        x
    }
}

proof fn lemma_product_sign(a: int, b: int)
    ensures
        sabs(a * b) == sabs(a) * sabs(b),
        a * b < 0 <==> ((a < 0) != (b < 0)) && a != 0 && b != 0,
        a * b == 0 <==> a == 0 || b == 0,
{
    assert(sabs(a * b) == sabs(a) * sabs(b) && (a * b < 0 <==> ((a < 0) != (b < 0)) && a != 0 && b
        != 0) && (a * b == 0 <==> a == 0 || b == 0)) by (nonlinear_arith);
}

/// Magnitude of a raw value, exact even for `i64::MIN`.
pub(crate) fn mag(a: i64) -> (m: u64)
    ensures
        m as int == sabs(a as int),
{
    if a >= 0 {
        a as u64
    } else if a == i64::MIN {
        9223372036854775808u64
    } else {
        (-a) as u64
    }
}

/// Reattach a sign to an unsigned quotient and saturate.
fn sign_clamp(q: u128, neg: bool) -> (r: i64)
    ensures
        r as int == sat(
            if neg {
                -(q as int)
            } else {
                q as int
            },
        ),
{
    if neg {
        if q >= 9223372036854775807u128 {
            -9223372036854775807i64
        } else {
            -(q as i64)
        }
    } else {
        if q >= 9223372036854775807u128 {
            9223372036854775807i64
        } else {
            q as i64
        }
    }
}

/// Saturating addition.
pub fn fx_add(a: i64, b: i64) -> (r: i64)
    ensures
        r as int == fx_add_s(a as int, b as int),
{
    let s: i128 = a as i128 + b as i128;
    if s > 9223372036854775807i128 {
        9223372036854775807i64
    } else if s < -9223372036854775807i128 {
        -9223372036854775807i64
    } else {
        s as i64
    }
}

/// Saturating subtraction.
pub fn fx_sub(a: i64, b: i64) -> (r: i64)
    ensures
        r as int == fx_sub_s(a as int, b as int),
{
    let s: i128 = a as i128 - b as i128;
    if s > 9223372036854775807i128 {
        9223372036854775807i64
    } else if s < -9223372036854775807i128 {
        -9223372036854775807i64
    } else {
        s as i64
    }
}

/// Saturating negation.
pub fn fx_neg(a: i64) -> (r: i64)
    ensures
        r as int == fx_neg_s(a as int),
{
    if a == i64::MIN {
        9223372036854775807i64
    } else {
        -a
    }
}

/// Saturating absolute value.
pub fn fx_abs(a: i64) -> (r: i64)
    ensures
        r as int == fx_abs_s(a as int),
{
    if a >= 0 {
        a
    } else {
        fx_neg(a)
    }
}

/// Fixed-point product, rounded toward zero, saturated.
pub fn fx_mul(a: i64, b: i64) -> (r: i64)
    ensures
        r as int == fx_mul_s(a as int, b as int),
{
    let ma: u64 = mag(a);
    let mb: u64 = mag(b);
    proof {
        lemma_mul_upper_bound(ma as int, u64::MAX as int, mb as int, u64::MAX as int);
    }
    let p: u128 = (ma as u128) * (mb as u128);
    let q: u128 = p / 65536u128;
    let neg: bool = (a < 0) != (b < 0);
    proof {
        lemma_product_sign(a as int, b as int);
    }
    sign_clamp(q, neg)
}

/// Fixed-point quotient, rounded toward zero, saturated; zero divisor
/// yields zero.
pub fn fx_div(a: i64, b: i64) -> (r: i64)
    ensures
        r as int == fx_div_s(a as int, b as int),
{
    if b == 0 {
        return 0;
    }
    let ma: u64 = mag(a);
    let mb: u64 = mag(b);
    proof {
        lemma_mul_upper_bound(ma as int, u64::MAX as int, 65536, 65536);
        lemma_product_sign(a as int, FX_ONE as int);
    }
    let p: u128 = (ma as u128) * 65536u128;
    let q: u128 = p / (mb as u128);
    let neg: bool = (a < 0) != (b < 0);
    sign_clamp(q, neg)
}

/// Clamp into `[lo, hi]`.
pub fn fx_clamp(x: i64, lo: i64, hi: i64) -> (r: i64)
    requires
        lo <= hi,
    ensures
        r as int == fx_clamp_s(x as int, lo as int, hi as int),
{
    if x < lo {
        lo
    } else if x > hi {
        hi
    } else {
        x
    }
}

/// `r` is the integer square root of `y`.
pub open spec fn is_isqrt(y: int, r: int) -> bool {
    0 <= r && r * r <= y && y < (r + 1) * (r + 1)
}

/// The integer square root of a nonnegative `y`.
pub open spec fn isqrt_s(y: int) -> int {
    choose|r: int| is_isqrt(y, r)
}

pub proof fn lemma_isqrt_unique(y: int, r1: int, r2: int)
    requires
        is_isqrt(y, r1),
        is_isqrt(y, r2),
    ensures
        r1 == r2,
{
    assert(r1 == r2) by (nonlinear_arith)
        requires
            is_isqrt(y, r1),
            is_isqrt(y, r2),
    ;
}

/// Square root of a fixed-point value: the largest `r` with
/// `r * r <= a * FX_ONE`, which is the 16.16 encoding of `sqrt(a / FX_ONE)`
/// rounded down. Nonpositive inputs yield zero.
pub open spec fn fx_sqrt_s(a: int) -> int {
    if a <= 0 {
        0
    } else {
        isqrt_s(a * (FX_ONE as int))
    }
}

/// Fixed-point square root by bisection.
pub fn fx_sqrt(a: i64) -> (r: i64)
    ensures
        r as int == fx_sqrt_s(a as int),
        0 <= r,
        a > 0 ==> is_isqrt(a as int * (FX_ONE as int), r as int),
{
    if a <= 0 {
        return 0;
    }
    let y: u128 = (a as u128) * 65536u128;
    proof {
        lemma_mul_upper_bound(a as int, FX_MAX as int, 65536, 65536);
    }
    let mut lo: u64 = 0;
    let mut hi: u64 = 1099511627776u64;
    assert((y as int) < (hi as int + 1) * (hi as int + 1)) by (nonlinear_arith)
        requires
            y as int <= (FX_MAX as int) * 65536,
            hi == 1099511627776u64,
    ;
    while lo < hi
        invariant
            lo <= hi,
            hi <= 1099511627776u64,
            (lo as int) * (lo as int) <= y as int,
            (y as int) < (hi as int + 1) * (hi as int + 1),
        decreases hi - lo,
    {
        let mid: u64 = lo + (hi - lo + 1) / 2;
        proof {
            lemma_mul_upper_bound(mid as int, 1099511627776, mid as int, 1099511627776);
        }
        let sq: u128 = (mid as u128) * (mid as u128);
        if sq <= y {
            lo = mid;
        } else {
            assert((y as int) < (mid as int) * (mid as int));
            hi = mid - 1;
        }
    }
    proof {
        assert(is_isqrt(y as int, lo as int));
        lemma_isqrt_unique(y as int, lo as int, isqrt_s(y as int));
    }
    lo as i64
}

/// Truncate a fixed-point value to its integer part, toward zero.
pub open spec fn fx_trunc_s(a: int) -> int {
    tdiv(a, FX_ONE as int)
}

/// Truncation toward zero is monotone.
pub proof fn lemma_trunc_mono(a: int, b: int)
    requires
        a <= b,
    ensures
        fx_trunc_s(a) <= fx_trunc_s(b),
{
    assert(tdiv(a, 65536) <= tdiv(b, 65536)) by (nonlinear_arith)
        requires
            a <= b,
    ;
}

/// Integer part of a fixed-point value, rounded toward zero.
pub fn fx_trunc(a: i64) -> (r: i64)
    ensures
        r as int == fx_trunc_s(a as int),
        fits(r as int),
{
    let m: u64 = mag(a);
    let q: u64 = m / 65536u64;
    if a < 0 {
        -(q as i64)
    } else {
        q as i64
    }
}

/// Pi in fixed point, rounded down.
pub const FX_PI: i64 = 205887;

/// Two pi in fixed point, rounded down.
pub const FX_TAU: i64 = 411774;

/// Half pi in fixed point, rounded down.
pub const FX_HALF_PI: i64 = 102943;

/// Five pi squared in fixed point, the denominator constant of the sine
/// approximation.
pub const FX_5PISQ: i64 = 3234093;

/// Sine of an angle already reduced to `[0, FX_PI]`, by the rational
/// approximation `16 t (pi - t) / (5 pi^2 - 4 t (pi - t))`.
pub open spec fn sin_core_s(t: int) -> int {
    let a = fx_mul_s(t, FX_PI as int - t);
    fx_div_s(fx_mul_s(16 * (FX_ONE as int), a), fx_sub_s(FX_5PISQ as int, fx_mul_s(4 * (FX_ONE as int), a)))
}

/// Sine of a fixed-point angle in radians: the angle is reduced modulo
/// two pi, the quarter-turn points are exact (so rotation by zero
/// angles is exactly the identity), and the second half-turn is the
/// negated first.
pub open spec fn fx_sin_s(x: int) -> int {
    let m = x % (FX_TAU as int);
    if m == 0 || m == FX_PI as int {
        0
    } else if m == FX_HALF_PI as int {
        FX_ONE as int
    } else if m == FX_PI as int + FX_HALF_PI as int {
        -(FX_ONE as int)
    } else if m <= FX_PI as int {
        sin_core_s(m)
    } else {
        fx_neg_s(sin_core_s(m - FX_PI as int))
    }
}

/// Cosine as the sine of the angle advanced by half pi.
pub open spec fn fx_cos_s(x: int) -> int {
    fx_sin_s(fx_add_s(x, FX_HALF_PI as int))
}

/// Euclidean remainder of a raw value modulo two pi.
fn emod_tau(a: i64) -> (r: i64)
    ensures
        r as int == (a as int) % (FX_TAU as int),
{
    let m: u64 = mag(a) % 411774;
    let r: i64 = if a >= 0 {
        m as i64
    } else if m == 0 {
        0
    } else {
        411774 - (m as i64)
    };
    proof {
        let b = sabs(a as int);
        let t = FX_TAU as int;
        if a < 0 {
            assert((-b) % t == (if b % t == 0 { 0int } else { t - b % t })) by (nonlinear_arith)
                requires
                    b >= 0,
                    t == FX_TAU as int,
            ;
        }
    }
    r
}

/// Sine of a fixed-point angle in radians.
pub fn fx_sin(x: i64) -> (r: i64)
    ensures
        r as int == fx_sin_s(x as int),
{
    let m: i64 = emod_tau(x);
    if m == 0 || m == FX_PI {
        0
    } else if m == FX_HALF_PI {
        FX_ONE
    } else if m == FX_PI + FX_HALF_PI {
        -FX_ONE
    } else if m <= FX_PI {
        sin_core(m)
    } else {
        fx_neg(sin_core(m - FX_PI))
    }
}

/// Cosine of a fixed-point angle in radians.
pub fn fx_cos(x: i64) -> (r: i64)
    ensures
        r as int == fx_cos_s(x as int),
{
    fx_sin(fx_add(x, FX_HALF_PI))
}

fn sin_core(t: i64) -> (r: i64)
    requires
        0 <= t <= FX_PI,
    ensures
        r as int == sin_core_s(t as int),
{
    let a: i64 = fx_mul(t, FX_PI - t);
    fx_div(fx_mul(16 * FX_ONE, a), fx_sub(FX_5PISQ, fx_mul(4 * FX_ONE, a)))
}

pub open spec fn fx_min_s(a: int, b: int) -> int {
    if a < b {
        a
    } else {
        b
    }
}

pub open spec fn fx_max_s(a: int, b: int) -> int {
    if a > b {
        a
    } else {
        b
    }
}

/// The smaller of two raw values.
pub fn fx_min(a: i64, b: i64) -> (r: i64)
    ensures
        r as int == fx_min_s(a as int, b as int),
{
    if a < b {
        a
    } else {
        b
    }
}

/// The larger of two raw values.
pub fn fx_max(a: i64, b: i64) -> (r: i64)
    ensures
        r as int == fx_max_s(a as int, b as int),
{
    if a > b {
        a
    } else {
        b
    }
}

/// Round a fixed-point value up to the next integer.
pub open spec fn fx_ceil_s(a: int) -> int {
    if a > 0 && a % (FX_ONE as int) != 0 {
        tdiv(a, FX_ONE as int) + 1
    } else {
        tdiv(a, FX_ONE as int)
    }
}

/// Smallest integer at or above a fixed-point value.
pub fn fx_ceil(a: i64) -> (r: i64)
    ensures
        r as int == fx_ceil_s(a as int),
{
    let t: i64 = fx_trunc(a);
    let rem: u64 = mag(a) % 65536;
    if a > 0 && rem != 0 {
        t + 1
    } else {
        t
    }
}

/// Saturate to the `u8` range.
pub open spec fn u8_sat_s(x: int) -> int {
    if x < 0 {
        0
    } else if x > 255 {
        255
    } else {
        x
    }
}

/// Integer part of a fixed-point value, saturated to a color byte (the
/// pipeline's cast of a color channel to `u8`).
pub fn fx_to_u8(a: i64) -> (r: u8)
    ensures
        r as int == u8_sat_s(fx_trunc_s(a as int)),
{
    let t: i64 = fx_trunc(a);
    if t < 0 {
        0
    } else if t > 255 {
        255
    } else {
        t as u8
    }
}

/// Saturate to the `u32` range.
pub open spec fn u32_sat_s(x: int) -> int {
    if x < 0 {
        0
    } else if x > u32::MAX as int {
        u32::MAX as int
    } else {
        x
    }
}

/// Saturate to the `i32` range.
pub open spec fn i32_sat_s(x: int) -> int {
    if x < i32::MIN as int {
        i32::MIN as int
    } else if x > i32::MAX as int {
        i32::MAX as int
    } else {
        x
    }
}

/// Integer part of a fixed-point value, saturated to `u32` (the pipeline's
/// cast of a nonnegative coordinate to a pixel index).
pub fn fx_to_u32(a: i64) -> (r: u32)
    ensures
        r as int == u32_sat_s(fx_trunc_s(a as int)),
{
    let t: i64 = fx_trunc(a);
    if t < 0 {
        0
    } else if t > u32::MAX as i64 {
        u32::MAX
    } else {
        t as u32
    }
}

/// Integer part of a fixed-point value, saturated to `i32` (the pipeline's
/// cast of a screen coordinate to a signed pixel index).
pub fn fx_to_i32(a: i64) -> (r: i32)
    ensures
        r as int == i32_sat_s(fx_trunc_s(a as int)),
{
    let t: i64 = fx_trunc(a);
    if t < i32::MIN as i64 {
        i32::MIN
    } else if t > i32::MAX as i64 {
        i32::MAX
    } else {
        t as i32
    }
}

} // verus!

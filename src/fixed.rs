//! Saturating fixed-point arithmetic on `i64` values scaled by [`SCALE`].
use vstd::prelude::*;

verus! {

/// The fixed-point representation of `1.0`.
pub const SCALE: i64 = 1_000_000;

/// `v` brought into the range of `i64`.
pub open spec fn clamp_i64(v: int) -> int {
    if v < i64::MIN {
        i64::MIN as int
    } else if v > i64::MAX {
        i64::MAX as int
    } else {
        v
    }
}

/// Division rounding toward zero, as Rust's integer division does.
pub open spec fn trunc_div(p: int, d: int) -> int {
    if p >= 0 {
        p / d
    } else {
        -((-p) / d)
    }
}

/// Saturating fixed-point sum.
pub open spec fn add_spec(a: int, b: int) -> int {
    clamp_i64(a + b)
}

/// Saturating fixed-point difference.
pub open spec fn sub_spec(a: int, b: int) -> int {
    clamp_i64(a - b)
}

/// Saturating fixed-point product, rounded toward zero.
pub open spec fn mul_spec(a: int, b: int) -> int {
    clamp_i64(trunc_div(a * b, SCALE as int))
}

/// Saturating fixed-point quotient, rounded toward zero.
pub open spec fn div_spec(a: int, b: int) -> int {
    if b > 0 {
        clamp_i64(trunc_div(a * SCALE, b))
    } else {
        clamp_i64(trunc_div(-(a * SCALE), -b))
    }
}

/// Sign of a value, with zero counted as positive: `SCALE` or `-SCALE`.
pub open spec fn sign_spec(a: int) -> int {
    if a >= 0 {
        SCALE as int
    } else {
        -SCALE
    }
}

/// `a` limited to `[lo, hi]`.
pub open spec fn clamp_spec(a: int, lo: int, hi: int) -> int {
    if a < lo {
        lo
    } else if a > hi {
        hi
    } else {
        a
    }
}

/// Absolute value, saturating at `i64::MAX`.
pub open spec fn abs_spec(a: int) -> int {
    clamp_i64(if a < 0 { -a } else { a })
}

fn clamp_wide(v: i128) -> (r: i64)
    ensures
        r == clamp_i64(v as int),
{
    if v < i64::MIN as i128 {
        i64::MIN
    } else if v > i64::MAX as i128 {
        i64::MAX
    } else {
        v as i64
    }
}

fn div_wide(p: i128, d: i128) -> (r: i128)
    requires
        d > 0,
        p > i128::MIN,
    ensures
        r == trunc_div(p as int, d as int),
{
    if p >= 0 {
        p / d
    } else {
        let q: i128 = (-p) / d;
        -q
    }
}

/// Saturating sum.
pub fn fx_add(a: i64, b: i64) -> (r: i64)
    ensures
        r == add_spec(a as int, b as int),
{
    clamp_wide(a as i128 + b as i128)
}

/// Saturating difference.
pub fn fx_sub(a: i64, b: i64) -> (r: i64)
    ensures
        r == sub_spec(a as int, b as int),
{
    clamp_wide(a as i128 - b as i128)
}

/// Saturating product of two fixed-point values.
pub fn fx_mul(a: i64, b: i64) -> (r: i64)
    ensures
        r == mul_spec(a as int, b as int),
{
    proof {
        assert(-0x4000_0000_0000_0000_0000_0000_0000_0000 <= (a as int) * (b as int)
            <= 0x4000_0000_0000_0000_0000_0000_0000_0000) by (nonlinear_arith)
            requires
                i64::MIN <= a <= i64::MAX,
                i64::MIN <= b <= i64::MAX,
        ;
    }
    let p: i128 = a as i128 * b as i128;
    clamp_wide(div_wide(p, SCALE as i128))
}

/// Saturating quotient of two fixed-point values; `b` must not be zero.
pub fn fx_div(a: i64, b: i64) -> (r: i64)
    requires
        b != 0,
    ensures
        r == div_spec(a as int, b as int),
{
    proof {
        assert(-0x1000_0000_0000_0000_0000_0000 <= (a as int) * (SCALE as int)
            <= 0x1000_0000_0000_0000_0000_0000) by (nonlinear_arith)
            requires
                i64::MIN <= a <= i64::MAX,
        ;
    }
    let p: i128 = a as i128 * SCALE as i128;
    if b > 0 {
        clamp_wide(div_wide(p, b as i128))
    } else {
        clamp_wide(div_wide(-p, -(b as i128)))
    }
}

/// `SCALE` for a non-negative value, `-SCALE` for a negative one.
pub fn fx_sign(a: i64) -> (r: i64)
    ensures
        r == sign_spec(a as int),
{
    if a >= 0 {
        SCALE
    } else {
        -SCALE
    }
}

/// `a` limited to `[lo, hi]`.
pub fn fx_clamp(a: i64, lo: i64, hi: i64) -> (r: i64)
    requires
        lo <= hi,
    ensures
        r == clamp_spec(a as int, lo as int, hi as int),
        lo <= r <= hi,
{
    if a < lo {
        lo
    } else if a > hi {
        hi
    } else {
        a
    }
}

/// Absolute value, saturating at `i64::MAX`.
pub fn fx_abs(a: i64) -> (r: i64)
    ensures
        r == abs_spec(a as int),
        r >= 0,
{
    if a < 0 {
        if a == i64::MIN {
            i64::MAX
        } else {
            -a
        }
    } else {
        a
    }
}

} // verus!

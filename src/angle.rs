//! Angles in micro-radians, kept in the half-open range `(-PI, PI]`.
use vstd::prelude::*;
use vstd::arithmetic::div_mod::lemma_fundamental_div_mod_converse;

verus! {

/// Pi in micro-radians.
pub const PI: i64 = 3_141_593;

/// A full turn in micro-radians.
pub const TWO_PI: i64 = 6_283_186;

/// An angle lies in `(-PI, PI]`.
pub open spec fn in_range(a: int) -> bool {
    -PI < a <= PI
}

/// The angle in `(-PI, PI]` that differs from `a` by a whole number of turns.
pub open spec fn wrap_spec(a: int) -> int {
    (a + PI - 1) % (TWO_PI as int) - PI + 1
}

/// The wrapped angle lies in `(-PI, PI]`, differs from its argument by whole
/// turns, and leaves an angle that already lies there unchanged.
pub proof fn lemma_wrap(a: int)
    ensures
        in_range(wrap_spec(a)),
        (wrap_spec(a) - a) % (TWO_PI as int) == 0,
        in_range(a) ==> wrap_spec(a) == a,
{
    let t = TWO_PI as int;
    let s = a + PI - 1;
    let q = s / t;
    let m = s % t;
    assert(s == q * t + m && 0 <= m < t) by {
        vstd::arithmetic::div_mod::lemma_fundamental_div_mod(s, t);
    }
    assert(wrap_spec(a) - a == (-q) * t) by (nonlinear_arith)
        requires
            s == q * t + m,
            wrap_spec(a) == m - PI + 1,
            s == a + PI - 1,
    ;
    lemma_fundamental_div_mod_converse(wrap_spec(a) - a, t, -q, 0);
    if in_range(a) {
        lemma_fundamental_div_mod_converse(s, t, 0, s);
    }
}

fn wrap_wide(v: i128) -> (r: i64)
    requires
        -0x1_0000_0000_0000_0000_0000 <= v <= 0x1_0000_0000_0000_0000_0000,
    ensures
        r == wrap_spec(v as int),
        in_range(r as int),
{
    let t: i128 = TWO_PI as i128;
    let s: i128 = v + PI as i128 - 1;
    let m: i128;
    if s >= 0 {
        m = s % t;
    } else {
        let q: i128 = (-s) / t;
        let n: i128 = (-s) % t;
        if n == 0 {
            m = 0;
            proof {
                lemma_fundamental_div_mod_converse(s as int, t as int, -(q as int), 0);
            }
        } else {
            m = t - n;
            proof {
                lemma_fundamental_div_mod_converse(s as int, t as int, -(q as int) - 1, (t - n) as int);
            }
        }
    }
    proof {
        lemma_wrap(v as int);
    }
    (m - PI as i128 + 1) as i64
}

/// `a` brought into `(-PI, PI]` by adding or subtracting whole turns.
pub fn wrap_angle(a: i64) -> (r: i64)
    ensures
        r == wrap_spec(a as int),
        in_range(r as int),
{
    wrap_wide(a as i128)
}

/// The difference `a - b`, brought into `(-PI, PI]`.
pub fn sub_angles(a: i64, b: i64) -> (r: i64)
    ensures
        r == wrap_spec(a - b),
        in_range(r as int),
{
    wrap_wide(a as i128 - b as i128)
}

} // verus!

//! Scaled-integer ("fixed-point") arithmetic used by the physics core.
//!
//! Every scalar quantity — coordinates, velocities, accelerations, forces,
//! masses, time deltas — is stored as a signed count of `1/SCALE` world
//! units.  Products of two quantities are divided by `SCALE` again, and all
//! such divisions round toward zero, which [`div_tz`] makes precise.

use vstd::arithmetic::div_mod::{
    lemma_div_is_ordered, lemma_div_multiples_vanish, lemma_div_nonincreasing,
    lemma_div_pos_is_pos, lemma_fundamental_div_mod, lemma_mod_division_less_than_divisor,
};
use vstd::arithmetic::mul::{lemma_mul_inequality, lemma_mul_unary_negation};
use vstd::prelude::*;

verus! {

/// Number of raw steps per world unit.
pub const SCALE: i64 = 1000;

/// Largest magnitude accepted for a position coordinate or a penetration depth.
pub const COORD_LIMIT: i64 = 1_000_000_000_000;

/// Largest magnitude accepted for a velocity component on entry to an operation.
pub const SPEED_LIMIT: i64 = 1_000_000_000;

/// Largest magnitude accepted for a force or impulse component.
pub const FORCE_LIMIT: i64 = 1_000_000_000;

/// Largest magnitude accepted for a time delta.
pub const DT_LIMIT: i64 = 10_000;

/// Largest accepted mass; together with the strictly positive minimum of one
/// raw unit this keeps every inverse-mass computation free of overflow and of
/// division by zero.
pub const MASS_LIMIT: i64 = 1_000_000;

/// Most named forces a body may carry into one update.
pub const FORCE_COUNT_LIMIT: usize = 1000;

/// `v` lies within `[-limit, limit]`.
pub open spec fn in_range(v: int, limit: int) -> bool {
    -limit <= v <= limit
}

/// Integer division rounding toward zero (the rounding used by every
/// fixed-point operation of this crate), defined from the Euclidean `/`.
pub open spec fn div_tz(a: int, b: int) -> int {
    if a >= 0 {
        a / b
    } else {
        -((-a) / b)
    }
}

pub proof fn lemma_div_tz_zero(b: int)
    requires
        1 <= b,
    ensures
        div_tz(0, b) == 0,
{
    lemma_div_multiples_vanish(0, b);
    assert(b * 0 == 0);
}

pub proof fn lemma_div_tz_mul_cancel(c: int, b: int)
    requires
        1 <= b,
    ensures
        div_tz(b * c, b) == c,
{
    lemma_div_multiples_vanish(c, b);
    if b * c < 0 {
        lemma_div_multiples_vanish(-c, b);
        lemma_mul_unary_negation(b, c);
        assert(-(b * c) == b * (-c));
    }
}

/// Division toward zero is monotone in the dividend.
pub proof fn lemma_div_tz_ordered(x: int, y: int, b: int)
    requires
        x <= y,
        1 <= b,
    ensures
        div_tz(x, b) <= div_tz(y, b),
{
    if x >= 0 {
        lemma_div_is_ordered(x, y, b);
    } else if y < 0 {
        lemma_div_is_ordered(-y, -x, b);
    } else {
        lemma_div_pos_is_pos(-x, b);
        lemma_div_pos_is_pos(y, b);
    }
}

/// Division toward zero never grows the magnitude of the dividend.
pub proof fn lemma_div_tz_bound(a: int, b: int, c: int)
    requires
        1 <= b,
        0 <= c,
        -c <= a <= c,
    ensures
        -c <= div_tz(a, b) <= c,
{
    if a >= 0 {
        lemma_div_pos_is_pos(a, b);
        lemma_div_nonincreasing(a, b);
    } else {
        lemma_div_pos_is_pos(-a, b);
        lemma_div_nonincreasing(-a, b);
    }
}

/// A dividend of magnitude at most `b * c` gives a quotient of magnitude at
/// most `c`.
pub proof fn lemma_div_tz_quotient_bound(a: int, b: int, c: int)
    requires
        1 <= b,
        0 <= c,
        -(b * c) <= a <= b * c,
    ensures
        -c <= div_tz(a, b) <= c,
{
    lemma_div_tz_ordered(a, b * c, b);
    lemma_div_tz_ordered(-(b * c), a, b);
    lemma_div_tz_mul_cancel(c, b);
    lemma_div_tz_mul_cancel(-c, b);
    lemma_mul_unary_negation(b, c);
    assert(b * (-c) == -(b * c));
}

/// Multiplying the quotient back misses the dividend by less than the
/// divisor, on the side of zero.
pub proof fn lemma_div_tz_remainder(a: int, b: int)
    requires
        1 <= b,
    ensures
        0 <= a ==> 0 <= a - b * div_tz(a, b) < b,
        a < 0 ==> -b < a - b * div_tz(a, b) <= 0,
{
    if a >= 0 {
        lemma_fundamental_div_mod(a, b);
        lemma_mod_division_less_than_divisor(a, b);
    } else {
        lemma_fundamental_div_mod(-a, b);
        lemma_mod_division_less_than_divisor(-a, b);
        lemma_mul_unary_negation(b, (-a) / b);
        assert(b * (-((-a) / b)) == -(b * ((-a) / b)));
    }
}

/// Divide, rounding toward zero.
pub fn div_rtz(a: i128, b: i128) -> (r: i128)
    requires
        1 <= b,
        i128::MIN < a,
    ensures
        r as int == div_tz(a as int, b as int),
{
    if a >= 0 {
        let q: u128 = (a as u128) / (b as u128);
        proof {
            lemma_div_pos_is_pos(a as int, b as int);
            lemma_div_nonincreasing(a as int, b as int);
        }
        q as i128
    } else {
        let n: i128 = -a;
        let q: u128 = (n as u128) / (b as u128);
        proof {
            lemma_div_pos_is_pos(n as int, b as int);
            lemma_div_nonincreasing(n as int, b as int);
        }
        -(q as i128)
    }
}

/// Multiply by `SCALE`.
pub fn mul_scale(a: i128) -> (r: i128)
    requires
        -100_000_000_000_000_000_000_000_000_000_000_000 <= a
            <= 100_000_000_000_000_000_000_000_000_000_000_000,
    ensures
        r as int == a * SCALE,
{
    a * 1000
}

/// `r` is the floor of the square root of `q`.
pub open spec fn is_sqrt_floor(q: int, r: int) -> bool {
    0 <= r && r * r <= q && q < (r + 1) * (r + 1)
}

/// The floor of the square root of a non-negative `q`.
pub closed spec fn sqrt_floor(q: int) -> int {
    choose|r: int| is_sqrt_floor(q, r)
}

pub proof fn lemma_sqrt_floor_unique(q: int, r: int)
    requires
        is_sqrt_floor(q, r),
    ensures
        r == sqrt_floor(q),
{
    assert(exists|s: int| is_sqrt_floor(q, s)) by {
        assert(is_sqrt_floor(q, r));
    }
    let s = sqrt_floor(q);
    assert(is_sqrt_floor(q, s));
    if r < s {
        assert((r + 1) * (r + 1) <= s * s) by (nonlinear_arith)
            requires
                0 <= r,
                r < s,
        ;
        assert(false);
    }
    if s < r {
        assert((s + 1) * (s + 1) <= r * r) by (nonlinear_arith)
            requires
                0 <= s,
                s < r,
        ;
        assert(false);
    }
}

/// Floor of the integer square root, by bisection.
pub fn int_sqrt(q: u128) -> (r: u128)
    requires
        (q as int) < 0x4000_0000_0000_0000_0000_0000_0000_0000,
    ensures
        is_sqrt_floor(q as int, r as int),
        r as int == sqrt_floor(q as int),
{
    let mut lo: u128 = 0;
    let mut hi: u128 = 0x8000_0000_0000_0000;
    proof {
        assert((0x8000_0000_0000_0000 as int) * (0x8000_0000_0000_0000 as int)
            == 0x4000_0000_0000_0000_0000_0000_0000_0000int) by (nonlinear_arith);
    }
    while lo + 1 < hi
        invariant
            lo < hi <= 0x8000_0000_0000_0000,
            (lo as int) * (lo as int) <= q as int,
            (q as int) < (hi as int) * (hi as int),
        decreases hi - lo,
    {
        let mid: u128 = lo + (hi - lo) / 2;
        proof {
            lemma_div_pos_is_pos((hi - lo) as int, 2);
            lemma_div_is_ordered(2, (hi - lo) as int, 2);
            lemma_div_nonincreasing((hi - lo) as int, 2);
            assert((2int) / (2int) == 1int);
            assert(((hi - lo) as int) / 2 < (hi - lo) as int) by {
                lemma_fundamental_div_mod((hi - lo) as int, 2);
                lemma_mod_division_less_than_divisor((hi - lo) as int, 2);
            }
            assert(lo < mid < hi);
            lemma_mul_inequality(mid as int, 0x8000_0000_0000_0000, mid as int);
            lemma_mul_inequality(mid as int, 0x8000_0000_0000_0000, 0x8000_0000_0000_0000);
        }
        if mid * mid <= q {
            lo = mid;
        } else {
            hi = mid;
        }
    }
    proof {
        lemma_sqrt_floor_unique(q as int, lo as int);
    }
    lo
}

} // verus!

//! Fixed-point sine and cosine on micro-degrees. The angle is reduced to
//! the first quadrant, the quadrant to a half-quadrant, and the rest is a
//! truncated Taylor polynomial over micro-radians. Values at multiples of
//! ninety degrees are exact; everything stays within one unit of magnitude.

use vstd::prelude::*;
use crate::fixed::SCALE;
use vstd::arithmetic::div_mod::{
    lemma_div_is_ordered,
    lemma_div_is_ordered_by_denominator,
    lemma_div_pos_is_pos,
    lemma_div_nonincreasing,
    lemma_div_multiples_vanish,
};

verus! {

pub const DEG_QUARTER: i64 = 90_000_000;

pub const DEG_EIGHTH: i64 = 45_000_000;

/// Micro-degrees to micro-radians, truncating.
pub open spec fn to_urad(x: int) -> int {
    x * 314_159_265 / 18_000_000_000
}

pub open spec fn p_x2(x: int) -> int {
    x * x / (SCALE as int)
}

pub open spec fn p_t3(x: int) -> int {
    p_x2(x) * x / (SCALE as int)
}

pub open spec fn p_t5(x: int) -> int {
    p_t3(x) * p_x2(x) / (SCALE as int)
}

pub open spec fn p_t7(x: int) -> int {
    p_t5(x) * p_x2(x) / (SCALE as int)
}

pub open spec fn p_t4(x: int) -> int {
    p_x2(x) * p_x2(x) / (SCALE as int)
}

pub open spec fn p_t6(x: int) -> int {
    p_t4(x) * p_x2(x) / (SCALE as int)
}

pub open spec fn p_t8(x: int) -> int {
    p_t6(x) * p_x2(x) / (SCALE as int)
}

/// Taylor sine over micro-radians, for the first half-quadrant.
pub open spec fn sin_poly(x: int) -> int {
    x - p_t3(x) / 6 + p_t5(x) / 120 - p_t7(x) / 5040
}

/// Taylor cosine over micro-radians, for the first half-quadrant.
pub open spec fn cos_poly(x: int) -> int {
    SCALE as int - p_x2(x) / 2 + p_t4(x) / 24 - p_t6(x) / 720 + p_t8(x) / 40320
}

/// Sine over one quadrant of micro-degrees, split at the half-quadrant.
pub open spec fn sin_quarter(r: int) -> int {
    if r <= DEG_EIGHTH as int {
        sin_poly(to_urad(r))
    } else {
        cos_poly(to_urad(DEG_QUARTER as int - r))
    }
}

/// Cosine over one quadrant of micro-degrees.
pub open spec fn cos_quarter(r: int) -> int {
    if r <= DEG_EIGHTH as int {
        cos_poly(to_urad(r))
    } else {
        sin_poly(to_urad(DEG_QUARTER as int - r))
    }
}

/// Sine of an angle in micro-degrees within one turn.
pub open spec fn sin_micro_spec(a: int) -> int {
    let q = a / DEG_QUARTER as int;
    let r = a % DEG_QUARTER as int;
    if q == 0 {
        sin_quarter(r)
    } else if q == 1 {
        cos_quarter(r)
    } else if q == 2 {
        -sin_quarter(r)
    } else if q == 3 {
        -cos_quarter(r)
    } else {
        sin_quarter(r)
    }
}

/// Cosine of an angle in micro-degrees within one turn.
pub open spec fn cos_micro_spec(a: int) -> int {
    let q = a / DEG_QUARTER as int;
    let r = a % DEG_QUARTER as int;
    if q == 0 {
        cos_quarter(r)
    } else if q == 1 {
        -sin_quarter(r)
    } else if q == 2 {
        -cos_quarter(r)
    } else if q == 3 {
        sin_quarter(r)
    } else {
        cos_quarter(r)
    }
}

/// Product bound: `a * b / d` stays between zero and the product of the
/// bounds over `d`.
proof fn lemma_mul_div_bound(a: int, amax: int, b: int, bmax: int, d: int)
    requires
        0 <= a <= amax,
        0 <= b <= bmax,
        0 < d,
    ensures
        0 <= a * b / d <= amax * bmax / d,
{
    assert(a * b <= amax * bmax) by (nonlinear_arith)
        requires
            0 <= a <= amax,
            0 <= b <= bmax,
    ;
    assert(a * b >= 0) by (nonlinear_arith)
        requires
            a >= 0,
            b >= 0,
    ;
    lemma_div_is_ordered(a * b, amax * bmax, d);
    lemma_div_pos_is_pos(a * b, d);
}

/// Scaling down by a factor bounded by the divisor cannot grow a value:
/// `a * b / d <= b` when `a <= d`.
proof fn lemma_mul_div_shrinks(a: int, b: int, d: int)
    requires
        0 <= a <= d,
        0 <= b,
        0 < d,
    ensures
        0 <= a * b / d <= b,
{
    assert(a * b <= d * b) by (nonlinear_arith)
        requires
            0 <= a <= d,
            0 <= b,
    ;
    assert(a * b >= 0) by (nonlinear_arith)
        requires
            a >= 0,
            b >= 0,
    ;
    lemma_div_is_ordered(a * b, d * b, d);
    lemma_div_multiples_vanish(b, d);
    lemma_div_pos_is_pos(a * b, d);
}

/// Bounds of every intermediate of the two polynomials over the
/// half-quadrant's micro-radian range.
proof fn lemma_poly_bounds(x: int)
    requires
        0 <= x <= 785_399,
    ensures
        0 <= p_x2(x) <= 616_851,
        0 <= p_t3(x) <= x,
        p_t3(x) <= 484_474,
        0 <= p_t5(x) <= p_t3(x),
        0 <= p_t7(x) <= p_t5(x),
        0 <= sin_poly(x) <= SCALE as int,
        0 <= p_t4(x) <= p_x2(x),
        0 <= p_t6(x) <= p_t4(x),
        0 <= p_t8(x) <= p_t6(x),
        0 <= cos_poly(x) <= SCALE as int,
{
    let s = SCALE as int;
    lemma_mul_div_bound(x, 785_399, x, 785_399, s);
    assert(785_399int * 785_399 / s == 616_851);
    lemma_mul_div_shrinks(p_x2(x), x, s);
    lemma_mul_div_bound(p_x2(x), 616_851, x, 785_399, s);
    assert(616_851int * 785_399 / s == 484_474);
    lemma_mul_div_shrinks(p_x2(x), p_t3(x), s);
    assert(p_t3(x) * p_x2(x) == p_x2(x) * p_t3(x)) by (nonlinear_arith);
    lemma_mul_div_shrinks(p_x2(x), p_t5(x), s);
    assert(p_t5(x) * p_x2(x) == p_x2(x) * p_t5(x)) by (nonlinear_arith);
    // sine: partial sums stay within [0, SCALE]
    lemma_div_nonincreasing(p_t3(x), 6);
    lemma_div_pos_is_pos(p_t3(x), 6);
    lemma_div_pos_is_pos(p_t5(x), 120);
    lemma_div_pos_is_pos(p_t7(x), 5040);
    lemma_div_is_ordered(p_t7(x), p_t5(x), 5040);
    lemma_div_is_ordered_by_denominator(p_t5(x), 120, 5040);
    lemma_div_is_ordered(p_t5(x), 484_474, 120);
    assert(484_474int / 120 == 4037);
    assert(p_t3(x) / 6 <= x);
    // cosine
    lemma_mul_div_shrinks(p_x2(x), p_x2(x), s);
    lemma_mul_div_shrinks(p_x2(x), p_t4(x), s);
    assert(p_t4(x) * p_x2(x) == p_x2(x) * p_t4(x)) by (nonlinear_arith);
    lemma_mul_div_shrinks(p_x2(x), p_t6(x), s);
    assert(p_t6(x) * p_x2(x) == p_x2(x) * p_t6(x)) by (nonlinear_arith);
    lemma_div_pos_is_pos(p_x2(x), 2);
    lemma_div_pos_is_pos(p_t4(x), 24);
    lemma_div_pos_is_pos(p_t6(x), 720);
    lemma_div_pos_is_pos(p_t8(x), 40320);
    lemma_div_is_ordered(p_x2(x), 616_851, 2);
    lemma_div_is_ordered(p_t6(x), 616_851, 720);
    assert(616_851int / 2 == 308_425);
    assert(616_851int / 720 == 856);
    // the fourth-order term cannot outweigh the second, nor the eighth the sixth
    lemma_div_is_ordered(p_t4(x), p_x2(x), 24);
    lemma_div_is_ordered_by_denominator(p_x2(x), 2, 24);
    lemma_div_is_ordered(p_t8(x), p_t6(x), 40320);
    lemma_div_is_ordered_by_denominator(p_t6(x), 720, 40320);
}

/// The micro-radian image of the half-quadrant fits the polynomial range.
proof fn lemma_to_urad_bounds(x: int)
    requires
        0 <= x <= DEG_EIGHTH as int,
    ensures
        0 <= to_urad(x) <= 785_398,
{
    assert(x * 314_159_265 <= 45_000_000 * 314_159_265) by (nonlinear_arith)
        requires
            0 <= x <= 45_000_000,
    ;
    assert(x * 314_159_265 >= 0) by (nonlinear_arith)
        requires
            x >= 0,
    ;
    lemma_div_is_ordered(x * 314_159_265, 45_000_000int * 314_159_265, 18_000_000_000);
    lemma_div_pos_is_pos(x * 314_159_265, 18_000_000_000);
    assert(45_000_000int * 314_159_265 / 18_000_000_000 == 785_398);
}

fn to_urad_exec(x: u64) -> (r: u64)
    requires
        x <= DEG_EIGHTH as u64,
    ensures
        r as int == to_urad(x as int),
        r <= 785_398,
{
    proof {
        lemma_to_urad_bounds(x as int);
    }
    (x * 314_159_265) / 18_000_000_000
}

fn sin_poly_exec(x: u64) -> (r: u64)
    requires
        x <= 785_399,
    ensures
        r as int == sin_poly(x as int),
        r <= SCALE as u64,
{
    proof {
        lemma_poly_bounds(x as int);
    }
    let s = SCALE as u64;
    let x2 = x * x / s;
    let t3 = x2 * x / s;
    let t5 = t3 * x2 / s;
    let t7 = t5 * x2 / s;
    x - t3 / 6 + t5 / 120 - t7 / 5040
}

fn cos_poly_exec(x: u64) -> (r: u64)
    requires
        x <= 785_399,
    ensures
        r as int == cos_poly(x as int),
        r <= SCALE as u64,
{
    proof {
        lemma_poly_bounds(x as int);
    }
    let s = SCALE as u64;
    let x2 = x * x / s;
    let t4 = x2 * x2 / s;
    let t6 = t4 * x2 / s;
    let t8 = t6 * x2 / s;
    s - x2 / 2 + t4 / 24 - t6 / 720 + t8 / 40320
}

fn sin_quarter_exec(r: u64) -> (v: u64)
    requires
        r < DEG_QUARTER as u64,
    ensures
        v as int == sin_quarter(r as int),
        v <= SCALE as u64,
{
    if r <= DEG_EIGHTH as u64 {
        proof {
            lemma_to_urad_bounds(r as int);
        }
        sin_poly_exec(to_urad_exec(r))
    } else {
        proof {
            lemma_to_urad_bounds(DEG_QUARTER as int - r as int);
        }
        cos_poly_exec(to_urad_exec(DEG_QUARTER as u64 - r))
    }
}

fn cos_quarter_exec(r: u64) -> (v: u64)
    requires
        r < DEG_QUARTER as u64,
    ensures
        v as int == cos_quarter(r as int),
        v <= SCALE as u64,
{
    if r <= DEG_EIGHTH as u64 {
        proof {
            lemma_to_urad_bounds(r as int);
        }
        cos_poly_exec(to_urad_exec(r))
    } else {
        proof {
            lemma_to_urad_bounds(DEG_QUARTER as int - r as int);
        }
        sin_poly_exec(to_urad_exec(DEG_QUARTER as u64 - r))
    }
}

/// Sine of `a` micro-degrees, in micro-units.
pub fn sin_micro(a: i64) -> (r: i64)
    requires
        0 <= a <= crate::angle::DEG_FULL,
    ensures
        r as int == sin_micro_spec(a as int),
        -SCALE <= r <= SCALE,
{
    let au = a as u64;
    let q = au / (DEG_QUARTER as u64);
    let rem = au % (DEG_QUARTER as u64);
    if q == 0 {
        sin_quarter_exec(rem) as i64
    } else if q == 1 {
        cos_quarter_exec(rem) as i64
    } else if q == 2 {
        -(sin_quarter_exec(rem) as i64)
    } else if q == 3 {
        -(cos_quarter_exec(rem) as i64)
    } else {
        sin_quarter_exec(rem) as i64
    }
}

/// Cosine of `a` micro-degrees, in micro-units.
pub fn cos_micro(a: i64) -> (r: i64)
    requires
        0 <= a <= crate::angle::DEG_FULL,
    ensures
        r as int == cos_micro_spec(a as int),
        -SCALE <= r <= SCALE,
{
    let au = a as u64;
    let q = au / (DEG_QUARTER as u64);
    let rem = au % (DEG_QUARTER as u64);
    if q == 0 {
        cos_quarter_exec(rem) as i64
    } else if q == 1 {
        -(sin_quarter_exec(rem) as i64)
    } else if q == 2 {
        -(cos_quarter_exec(rem) as i64)
    } else if q == 3 {
        sin_quarter_exec(rem) as i64
    } else {
        cos_quarter_exec(rem) as i64
    }
}

} // verus!

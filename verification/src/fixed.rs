//! Fixed-point arithmetic in micro-units: an `i64` value `v` stands for the
//! real number `v / 1_000_000`. Coordinates are kept inside a symmetric
//! clamping band so that every operation is total and overflow-free.

use vstd::prelude::*;

verus! {

/// Number of micro-units in one whole unit.
pub const SCALE: i64 = 1_000_000;

/// Largest coordinate magnitude the geometry carries; results outside the
/// band are clamped to its edge.
pub const COORD_LIMIT: i64 = 1_000_000_000_000_000;

/// Clamp a mathematical integer into the coordinate band.
pub open spec fn clamp_coord(v: int) -> int {
    if v > COORD_LIMIT as int {
        COORD_LIMIT as int
    } else if v < -(COORD_LIMIT as int) {
        -(COORD_LIMIT as int)
    } else {
        v
    }
}

/// Product of two micro-unit values, rescaled to micro-units with the
/// quotient rounded toward zero, then clamped into the coordinate band.
pub open spec fn mul_fix_spec(a: int, b: int) -> int {
    let m = (abs_int(a) * abs_int(b)) / (SCALE as int);
    if (a < 0) != (b < 0) {
        clamp_coord(-m)
    } else {
        clamp_coord(m)
    }
}

pub open spec fn abs_int(v: int) -> int {
    if v < 0 {
        -v
    } else {
        v
    }
}

/// Saturating sum of two coordinate-band values.
pub open spec fn add_sat_spec(a: int, b: int) -> int {
    clamp_coord(a + b)
}

/// Clamp a value into the coordinate band.
pub fn clamp(v: i64) -> (r: i64)
    ensures
        r as int == clamp_coord(v as int),
{
    if v > COORD_LIMIT {
        COORD_LIMIT
    } else if v < -COORD_LIMIT {
        -COORD_LIMIT
    } else {
        v
    }
}

/// Fixed-point product `a * b / SCALE`, rounded toward zero and clamped.
pub fn mul_fix(a: i64, b: i64) -> (r: i64)
    requires
        -COORD_LIMIT <= a <= COORD_LIMIT,
        -COORD_LIMIT <= b <= COORD_LIMIT,
    ensures
        r as int == mul_fix_spec(a as int, b as int),
{
    let am: u128 = (if a < 0 { -a } else { a }) as u128;
    let bm: u128 = (if b < 0 { -b } else { b }) as u128;
    assert(am * bm <= COORD_LIMIT as u128 * COORD_LIMIT as u128) by (nonlinear_arith)
        requires
            am <= COORD_LIMIT as u128,
            bm <= COORD_LIMIT as u128,
    ;
    let m: u128 = (am * bm) / (SCALE as u128);
    let clamped: i64 = if m > COORD_LIMIT as u128 {
        COORD_LIMIT
    } else {
        m as i64
    };
    if (a < 0) != (b < 0) {
        -clamped
    } else {
        clamped
    }
}

/// Saturating addition, clamped into the coordinate band.
pub fn add_sat(a: i64, b: i64) -> (r: i64)
    requires
        -COORD_LIMIT <= a <= COORD_LIMIT,
        -COORD_LIMIT <= b <= COORD_LIMIT,
    ensures
        r as int == add_sat_spec(a as int, b as int),
{
    clamp(a + b)
}

} // verus!

//! Angles in micro-degrees, normalized into the standard turn.

use vstd::prelude::*;
use vstd::arithmetic::div_mod::{lemma_fundamental_div_mod, lemma_fundamental_div_mod_converse};

verus! {

/// Micro-degrees in one full turn.
pub const DEG_FULL: i64 = 360_000_000;

/// A micro-degree value reduced into `[0, 360)` degrees.
pub open spec fn normalize_degree(d: int) -> int {
    d % (DEG_FULL as int)
}

/// An angle, held as micro-degrees.
#[derive(Clone, Copy, Debug, PartialEq, Eq, Structural)]
pub struct Angle {
    pub degree: i64,
}

impl Angle {
    /// Build an angle from micro-degrees, normalizing into `[0, 360)`
    /// degrees.
    pub fn from_degree(degree: i64) -> (a: Angle)
        ensures
            a.degree as int == normalize_degree(degree as int),
            0 <= a.degree < DEG_FULL,
    {
        let local_degree: i64 = if degree >= 0 {
            (degree as u64 % (DEG_FULL as u64)) as i64
        } else {
            let m = ((-(degree as i128)) as u64) % (DEG_FULL as u64);
            if m == 0 {
                0
            } else {
                DEG_FULL - m as i64
            }
        };
        proof {
            let md = DEG_FULL as int;
            if degree >= 0 {
            } else {
                let n = -(degree as int);
                lemma_fundamental_div_mod(n, md);
                let q = n / md;
                let r = n % md;
                if r == 0 {
                    lemma_fundamental_div_mod_converse(degree as int, md, -q, 0);
                } else {
                    lemma_fundamental_div_mod_converse(degree as int, md, -q - 1, md - r);
                }
            }
        }
        Angle { degree: local_degree }
    }

    /// The held micro-degree value.
    pub fn degree(&self) -> (d: i64)
        ensures
            d == self.degree,
    {
        self.degree
    }
}

impl Default for Angle {
    fn default() -> (a: Self)
        ensures
            a.degree == 0,
    {
        Angle { degree: 0 }
    }
}

} // verus!

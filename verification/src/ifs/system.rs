//! One affine map of an IFS: `x' = a*x + b*y + c`, `y' = d*x + e*y + f`,
//! with a probability weight. Coefficients are clamped into the coordinate
//! band when the system is built, so applying the map is total.

use vstd::prelude::*;
use crate::colors::{black, ColorScheme};
use crate::fixed::{add_sat, add_sat_spec, clamp, clamp_coord, mul_fix, mul_fix_spec, COORD_LIMIT};
use crate::geometry::{Dot, Point2D};

verus! {

pub open spec fn in_band(v: int) -> bool {
    -COORD_LIMIT <= v <= COORD_LIMIT
}

/// Where an affine map with coefficient row `p` (clamped into the
/// coordinate band) sends a point.
pub open spec fn map_image(p: [i64; 7], pt: Point2D) -> Point2D {
    Point2D {
        x: add_sat_spec(
            add_sat_spec(
                mul_fix_spec(clamp_coord(p[0] as int), pt.x as int),
                mul_fix_spec(clamp_coord(p[1] as int), pt.y as int),
            ),
            clamp_coord(p[4] as int),
        ) as i64,
        y: add_sat_spec(
            add_sat_spec(
                mul_fix_spec(clamp_coord(p[2] as int), pt.x as int),
                mul_fix_spec(clamp_coord(p[3] as int), pt.y as int),
            ),
            clamp_coord(p[5] as int),
        ) as i64,
    }
}

/// An affine map ready to run: clamped coefficients, the dot radius, and
/// the coloring policy for the dots it produces.
pub struct EquationSystem {
    pub a: i64,
    pub b: i64,
    pub d: i64,
    pub e: i64,
    pub c: i64,
    pub f: i64,
    pub probability: i64,
    pub radius: i64,
    pub color_scheme: ColorScheme,
}

impl EquationSystem {
    pub open spec fn wf(&self) -> bool {
        &&& in_band(self.a as int)
        &&& in_band(self.b as int)
        &&& in_band(self.d as int)
        &&& in_band(self.e as int)
        &&& in_band(self.c as int)
        &&& in_band(self.f as int)
        &&& in_band(self.radius as int)
    }

    /// Matches `map_image` of the parameter row this system was built
    /// from.
    pub open spec fn image(&self, pt: Point2D) -> Point2D {
        Point2D {
            x: add_sat_spec(
                add_sat_spec(
                    mul_fix_spec(self.a as int, pt.x as int),
                    mul_fix_spec(self.b as int, pt.y as int),
                ),
                self.c as int,
            ) as i64,
            y: add_sat_spec(
                add_sat_spec(
                    mul_fix_spec(self.d as int, pt.x as int),
                    mul_fix_spec(self.e as int, pt.y as int),
                ),
                self.f as int,
            ) as i64,
        }
    }

    /// Build a system from a parameter row `[a, b, d, e, c, f, p]` and a
    /// dot radius, clamping the coefficients and the radius.
    pub fn new(parameters: [i64; 7], radius: i64) -> (s: Self)
        ensures
            s.wf(),
            s.a as int == clamp_coord(parameters[0] as int),
            s.b as int == clamp_coord(parameters[1] as int),
            s.d as int == clamp_coord(parameters[2] as int),
            s.e as int == clamp_coord(parameters[3] as int),
            s.c as int == clamp_coord(parameters[4] as int),
            s.f as int == clamp_coord(parameters[5] as int),
            s.probability == parameters[6],
            s.radius as int == clamp_coord(radius as int),
            s.color_scheme is Standard,
            forall|pt: Point2D| s.image(pt) == map_image(parameters, pt),
    {
        let s = EquationSystem {
            a: clamp(parameters[0]),
            b: clamp(parameters[1]),
            d: clamp(parameters[2]),
            e: clamp(parameters[3]),
            c: clamp(parameters[4]),
            f: clamp(parameters[5]),
            probability: parameters[6],
            radius: clamp(radius),
            color_scheme: ColorScheme::Standard,
        };
        s
    }

    pub fn with_color_scheme(self, color_scheme: ColorScheme) -> (s: Self)
        ensures
            s == (EquationSystem { color_scheme, ..self }),
    {
        EquationSystem { color_scheme, ..self }
    }

    pub fn probability(&self) -> (p: i64)
        ensures
            p == self.probability,
    {
        self.probability
    }

    /// Apply the map to the previous dot: the next dot sits at the map's
    /// image, is colored by this system's policy, and carries its radius.
    pub fn next_dot(&self, previous: &Dot) -> (d: Dot)
        requires
            self.wf(),
            in_band(previous.point.x as int),
            in_band(previous.point.y as int),
        ensures
            d.point == self.image(previous.point),
            d.radius == self.radius,
            self.color_scheme matches ColorScheme::Fixed(c) ==> d.color == c,
            self.color_scheme is Standard ==> d.color == black(),
            in_band(d.point.x as int),
            in_band(d.point.y as int),
    {
        let x = add_sat(
            add_sat(mul_fix(self.a, previous.point.x), mul_fix(self.b, previous.point.y)),
            self.c,
        );
        let y = add_sat(
            add_sat(mul_fix(self.d, previous.point.x), mul_fix(self.e, previous.point.y)),
            self.f,
        );
        Dot { point: Point2D { x, y }, color: self.color_scheme.get_color(), radius: self.radius }
    }
}

} // verus!

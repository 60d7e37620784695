//! Geometric primitives the engines emit: points, dots and line segments,
//! all in micro-unit coordinates.

use vstd::prelude::*;
use crate::colors::{black, rgb_black, ColorScheme, Rgb};

verus! {

/// A point of the abstract drawing plane, in micro-units.
#[derive(Clone, Copy, Debug, PartialEq, Eq, Structural)]
pub struct Point2D {
    pub x: i64,
    pub y: i64,
}

impl Point2D {
    pub fn new(x: i64, y: i64) -> (p: Point2D)
        ensures
            p == (Point2D { x, y }),
    {
        Point2D { x, y }
    }
}

/// Pen parameters of a line segment: width in micro-units and a color.
#[derive(Clone, Copy, Debug, PartialEq, Eq, Structural)]
pub struct Stroke {
    pub width: i64,
    pub color: Rgb,
}

impl Stroke {
    pub fn new(width: i64, color: Rgb) -> (s: Stroke)
        ensures
            s == (Stroke { width, color }),
    {
        Stroke { width, color }
    }
}

/// One line segment of the turtle's output.
#[derive(Clone, Copy, Debug, PartialEq, Eq, Structural)]
pub struct Line2D {
    pub start: Point2D,
    pub end: Point2D,
    pub stroke: Stroke,
}

impl Line2D {
    pub fn new(start: Point2D, end: Point2D, stroke: Stroke) -> (l: Line2D)
        ensures
            l == (Line2D { start, end, stroke }),
    {
        Line2D { start, end, stroke }
    }
}

/// One point of the chaos game's cloud, with its color and radius.
#[derive(Clone, Copy, Debug, PartialEq, Eq, Structural)]
pub struct Dot {
    pub point: Point2D,
    pub color: Rgb,
    pub radius: i64,
}

impl Dot {
    pub fn new(point: Point2D, color: Rgb, radius: i64) -> (d: Dot)
        ensures
            d == (Dot { point, color, radius }),
    {
        Dot { point, color, radius }
    }
}

/// The default dot: the origin, black, radius 0.025 units.
pub open spec fn default_dot() -> Dot {
    Dot { point: Point2D { x: 0, y: 0 }, color: black(), radius: 25_000 }
}

pub struct DotBuilder {
    pub point: Point2D,
    pub color: Rgb,
    pub radius: i64,
}

impl Default for DotBuilder {
    fn default() -> (b: Self)
        ensures
            b.point == (Point2D { x: 0, y: 0 }),
            b.color == black(),
            b.radius == 25_000,
    {
        DotBuilder { point: Point2D { x: 0, y: 0 }, color: rgb_black(), radius: 25_000 }
    }
}

impl DotBuilder {
    pub fn with_center(self, point: Point2D) -> (b: Self)
        ensures
            b.point == point,
            b.color == self.color,
            b.radius == self.radius,
    {
        DotBuilder { point, ..self }
    }

    pub fn with_color(self, color: Rgb) -> (b: Self)
        ensures
            b.point == self.point,
            b.color == color,
            b.radius == self.radius,
    {
        DotBuilder { color, ..self }
    }

    pub fn with_color_scheme(self, scheme: &ColorScheme) -> (b: Self)
        ensures
            b.point == self.point,
            b.radius == self.radius,
            scheme matches ColorScheme::Fixed(f) ==> b.color == f,
            scheme is Standard ==> b.color == black(),
    {
        let color = scheme.get_color();
        DotBuilder { color, ..self }
    }

    pub fn with_radius_centimeters(self, radius: i64) -> (b: Self)
        ensures
            b.point == self.point,
            b.color == self.color,
            b.radius == radius,
    {
        DotBuilder { radius, ..self }
    }

    pub fn build(self) -> (d: Dot)
        ensures
            d == (Dot { point: self.point, color: self.color, radius: self.radius }),
    {
        Dot { point: self.point, color: self.color, radius: self.radius }
    }
}

} // verus!

//! Plain RGB colors and the per-map coloring policies of the IFS engine.

use vstd::prelude::*;
use crate::rng::random_u8;

verus! {

/// A color as plain 8-bit channels.
#[derive(Clone, Copy, Debug, PartialEq, Eq, Structural)]
pub struct Rgb {
    pub r: u8,
    pub g: u8,
    pub b: u8,
}

pub open spec fn black() -> Rgb {
    Rgb { r: 0, g: 0, b: 0 }
}

pub fn rgb_black() -> (c: Rgb)
    ensures
        c == black(),
{
    Rgb { r: 0, g: 0, b: 0 }
}

/// How the points produced by one affine map are colored: a fixed color,
/// a color drawn at random on each draw, or the standard black.
#[derive(Clone, Copy, Debug, PartialEq, Eq, Structural)]
pub enum ColorScheme {
    Fixed(Rgb),
    Random,
    Standard,
}

impl ColorScheme {
    /// The color this policy yields for one draw; `Random` draws fresh
    /// channels every call.
    pub fn get_color(&self) -> (c: Rgb)
        ensures
            self matches ColorScheme::Fixed(f) ==> c == f,
            self is Standard ==> c == black(),
    {
        match self {
            ColorScheme::Fixed(color) => *color,
            ColorScheme::Random => Rgb { r: random_u8(), g: random_u8(), b: random_u8() },
            ColorScheme::Standard => rgb_black(),
        }
    }
}

impl Default for ColorScheme {
    fn default() -> (s: Self)
        ensures
            s is Standard,
    {
        ColorScheme::Standard
    }
}

} // verus!

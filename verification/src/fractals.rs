//! Which fractal family a panel works on.

use vstd::prelude::*;

verus! {

#[derive(Clone, Copy, Debug, PartialEq, Eq, Structural)]
pub enum FractalType {
    Ifs,
    LSystem,
}

impl FractalType {
    /// The family's display title.
    pub fn title(&self) -> (r: String)
        ensures
            self is Ifs ==> r@ == "Iterated Function System (IFS)"@,
            self is LSystem ==> r@ == "L-System"@,
    {
        match self {
            FractalType::Ifs => String::from_str("Iterated Function System (IFS)"),
            FractalType::LSystem => String::from_str("L-System"),
        }
    }
}

impl Default for FractalType {
    fn default() -> (r: Self)
        ensures
            r is Ifs,
    {
        FractalType::Ifs
    }
}

} // verus!

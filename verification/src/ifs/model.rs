//! The chaos game: repeatedly draw an affine map at random, weighted by
//! the maps' probabilities, and apply it to the previous point.

use vstd::prelude::*;
use crate::colors::{black, ColorScheme};
use crate::geometry::{default_dot, Dot, DotBuilder};
use crate::ifs::system::{in_band, map_image, EquationSystem};
use crate::ifs::validation::{valid_map_set, weight_sum};
use crate::rng::{new_weighted_index, sample_weighted, sum_weights, weighted_weights};

verus! {

pub const DEFAULT_ITERATIONS: u32 = 20000;

/// Default dot radius: 0.025 units in micro-units.
pub const DEFAULT_RADIUS: i64 = 25_000;

/// The weighted distribution could not be built: the weights reaching the
/// engine were degenerate, which a validated map set never is unless every
/// weight is zero.
#[derive(Clone, Copy, Debug, PartialEq, Eq, Structural)]
pub enum EngineError {
    DegenerateWeights,
}

/// One admissible step of the chaos game from `prev` to `cur` under the
/// map row `p` with coloring policy `scheme` and dot radius `radius`.
pub open spec fn chaos_step(
    p: [i64; 7],
    scheme: ColorScheme,
    radius: i64,
    prev: Dot,
    cur: Dot,
) -> bool {
    &&& cur.point == map_image(p, prev.point)
    &&& cur.radius as int == crate::fixed::clamp_coord(radius as int)
    &&& (scheme matches ColorScheme::Fixed(c) ==> cur.color == c)
    &&& (scheme is Standard ==> cur.color == black())
}

/// `cur` follows from `prev` by one of the maps of `systems`.
pub open spec fn chaos_link(
    systems: Seq<[i64; 7]>,
    schemas: Seq<ColorScheme>,
    radius: i64,
    prev: Dot,
    cur: Dot,
) -> bool {
    exists|idx: int|
        0 <= idx < systems.len() && #[trigger] chaos_step(
            systems[idx],
            schemas[idx],
            radius,
            prev,
            cur,
        )
}

/// Every dot of `dots` after the seed follows from its predecessor by one
/// of the maps of `systems`.
pub open spec fn chaos_chain(
    systems: Seq<[i64; 7]>,
    schemas: Seq<ColorScheme>,
    radius: i64,
    dots: Seq<Dot>,
) -> bool {
    forall|k: int|
        1 <= k < dots.len() ==> chaos_link(systems, schemas, radius, dots[k - 1], #[trigger] dots[k])
}

pub struct Model {
    pub systems: Vec<[i64; 7]>,
    pub color_schemas: Vec<ColorScheme>,
    pub iterations: u32,
    pub radius: i64,
}

impl Model {
    /// Run the chaos game. The cloud starts at the default seed dot and
    /// gains one dot per iteration, each produced by a map drawn from the
    /// weighted distribution; its length is `iterations + 1`. Fails
    /// exactly when every weight is zero.
    pub fn dots(&self) -> (r: Result<Vec<Dot>, EngineError>)
        requires
            valid_map_set(self.systems@),
            self.color_schemas@.len() == self.systems@.len(),
            self.systems@.len() <= 1_000_000_000,
        ensures
            r is Ok <==> weight_sum(self.systems@) > 0,
            r matches Ok(dots) ==> {
                &&& dots@.len() == self.iterations + 1
                &&& dots@[0] == default_dot()
                &&& chaos_chain(self.systems@, self.color_schemas@, self.radius, dots@)
            },
    {
        let mut equations: Vec<EquationSystem> = Vec::new();
        let mut index: usize = 0;
        while index < self.systems.len()
            invariant
                index <= self.systems@.len(),
                self.color_schemas@.len() == self.systems@.len(),
                equations@.len() == index,
                forall|j: int|
                    0 <= j < index ==> (#[trigger] equations@[j]).wf() && equations@[j].probability
                        == self.systems@[j][6] && equations@[j].color_scheme
                        == self.color_schemas@[j] && equations@[j].radius as int
                        == crate::fixed::clamp_coord(self.radius as int) && forall|pt:
                        crate::geometry::Point2D|
                        equations@[j].image(pt) == map_image(self.systems@[j], pt),
            decreases self.systems@.len() - index,
        {
            let eq = EquationSystem::new(self.systems[index], self.radius).with_color_scheme(
                self.color_schemas[index],
            );
            equations.push(eq);
            index = index + 1;
        }

        let mut probabilities: Vec<i64> = Vec::new();
        let mut i: usize = 0;
        while i < equations.len()
            invariant
                i <= equations@.len(),
                equations@.len() == self.systems@.len(),
                probabilities@.len() == i,
                forall|j: int|
                    0 <= j < i ==> #[trigger] probabilities@[j] == equations@[j].probability,
                forall|j: int|
                    0 <= j < equations@.len() ==> #[trigger] equations@[j].probability
                        == self.systems@[j][6],
            decreases equations@.len() - i,
        {
            probabilities.push(equations[i].probability());
            i = i + 1;
        }
        proof {
            assert(forall|j: int|
                0 <= j < probabilities@.len() ==> #[trigger] probabilities@[j]
                    == self.systems@[j][6]);
            lemma_sum_extract(probabilities@, self.systems@);
        }

        let dist = match new_weighted_index(&probabilities) {
            Some(d) => d,
            None => {
                return Err(EngineError::DegenerateWeights);
            },
        };

        let mut dots: Vec<Dot> = Vec::new();
        let start_dot = DotBuilder::default().build();
        dots.push(start_dot);

        let mut current_index: usize = 0;
        let iterations = self.iterations;
        while current_index < iterations as usize
            invariant
                dots@.len() == current_index + 1,
                current_index <= iterations as usize,
                dots@[0] == default_dot(),
                weighted_weights(dist) == probabilities@,
                probabilities@.len() == self.systems@.len(),
                0 < self.systems@.len() <= 1_000_000_000,
                equations@.len() == self.systems@.len(),
                self.color_schemas@.len() == self.systems@.len(),
                forall|j: int|
                    0 <= j < equations@.len() ==> (#[trigger] equations@[j]).wf()
                        && equations@[j].color_scheme == self.color_schemas@[j]
                        && equations@[j].radius as int == crate::fixed::clamp_coord(
                        self.radius as int,
                    ) && forall|pt: crate::geometry::Point2D|
                        equations@[j].image(pt) == map_image(self.systems@[j], pt),
                forall|k: int|
                    0 <= k < dots@.len() ==> in_band((#[trigger] dots@[k]).point.x as int)
                        && in_band(dots@[k].point.y as int),
                chaos_chain(self.systems@, self.color_schemas@, self.radius, dots@),
            decreases iterations as int - current_index,
        {
            let idx = sample_weighted(&dist);
            let previous = dots[current_index];
            let new_dot = equations[idx].next_dot(&previous);
            proof {
                assert(chaos_step(
                    self.systems@[idx as int],
                    self.color_schemas@[idx as int],
                    self.radius,
                    previous,
                    new_dot,
                ));
                assert(chaos_link(
                    self.systems@,
                    self.color_schemas@,
                    self.radius,
                    previous,
                    new_dot,
                ));
            }
            let ghost prev_dots = dots@;
            dots.push(new_dot);
            current_index = current_index + 1;
            proof {
                let ds = dots@;
                assert forall|k: int| 1 <= k < ds.len() implies chaos_link(
                    self.systems@,
                    self.color_schemas@,
                    self.radius,
                    ds[k - 1],
                    #[trigger] ds[k],
                ) by {
                    if k < ds.len() - 1 {
                        assert(ds[k] == prev_dots[k]);
                        assert(ds[k - 1] == prev_dots[k - 1]);
                        assert(chaos_link(
                            self.systems@,
                            self.color_schemas@,
                            self.radius,
                            prev_dots[k - 1],
                            prev_dots[k],
                        ));
                    } else {
                        assert(ds[k] == new_dot);
                        assert(ds[k - 1] == previous);
                    }
                }
            }
        }
        Ok(dots)
    }
}

/// Pointwise-equal weight extractions have the same sum.
proof fn lemma_sum_extract(w: Seq<i64>, s: Seq<[i64; 7]>)
    requires
        w.len() == s.len(),
        forall|j: int| 0 <= j < w.len() ==> #[trigger] w[j] == s[j][6],
    ensures
        sum_weights(w) == weight_sum(s),
    decreases w.len(),
{
    if w.len() > 0 {
        assert(forall|j: int| 0 <= j < w.len() - 1 ==> #[trigger] w.drop_last()[j] == s
            .drop_last()[j][6]);
        lemma_sum_extract(w.drop_last(), s.drop_last());
    }
}

pub struct ModelBuilder {
    pub systems: Vec<[i64; 7]>,
    pub color_schemas: Vec<ColorScheme>,
    pub iterations: u32,
    pub radius: i64,
}

impl Default for ModelBuilder {
    fn default() -> (b: Self)
        ensures
            b.systems@.len() == 0,
            b.color_schemas@.len() == 0,
            b.iterations == DEFAULT_ITERATIONS,
            b.radius == DEFAULT_RADIUS,
    {
        ModelBuilder {
            systems: Vec::new(),
            color_schemas: Vec::new(),
            iterations: DEFAULT_ITERATIONS,
            radius: DEFAULT_RADIUS,
        }
    }
}

impl ModelBuilder {
    pub fn with_systems(self, systems: Vec<[i64; 7]>) -> (b: Self)
        ensures
            b.systems == systems,
            b.color_schemas == self.color_schemas,
            b.iterations == self.iterations,
            b.radius == self.radius,
    {
        ModelBuilder { systems, ..self }
    }

    pub fn with_color_schemas(self, color_schemas: Vec<ColorScheme>) -> (b: Self)
        ensures
            b.color_schemas == color_schemas,
            b.systems == self.systems,
            b.iterations == self.iterations,
            b.radius == self.radius,
    {
        ModelBuilder { color_schemas, ..self }
    }

    pub fn with_iterations(self, iterations: u32) -> (b: Self)
        ensures
            b.iterations == iterations,
            b.systems == self.systems,
            b.color_schemas == self.color_schemas,
            b.radius == self.radius,
    {
        ModelBuilder { iterations, ..self }
    }

    pub fn with_radius(self, radius: i64) -> (b: Self)
        ensures
            b.radius == radius,
            b.systems == self.systems,
            b.color_schemas == self.color_schemas,
            b.iterations == self.iterations,
    {
        ModelBuilder { radius, ..self }
    }

    pub fn build(self) -> (m: Model)
        ensures
            m.systems == self.systems,
            m.color_schemas == self.color_schemas,
            m.iterations == self.iterations,
            m.radius == self.radius,
    {
        Model {
            systems: self.systems,
            color_schemas: self.color_schemas,
            iterations: self.iterations,
            radius: self.radius,
        }
    }
}

} // verus!

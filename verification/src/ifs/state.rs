//! The IFS fractal's state: editable parameters, the initialized and
//! drawing-requested flags, and the cached point cloud.

use vstd::prelude::*;
use crate::colors::ColorScheme;
use crate::geometry::{default_dot, Dot};
use crate::ifs::model::{chaos_chain, EngineError, ModelBuilder, DEFAULT_ITERATIONS, DEFAULT_RADIUS};
use crate::ifs::validation;
use crate::ifs::validation::{valid_map_set, weight_sum, ValidationError};

verus! {

pub struct IfsState {
    pub is_initialized: bool,
    pub is_drawing_requested: bool,
    pub dots: Vec<Dot>,
    pub systems: Vec<[i64; 7]>,
    pub is_coloring_enabled: bool,
    pub color_schemas: Vec<ColorScheme>,
    pub iterations: u32,
    pub radius_cm: i64,
}

/// The default parameter row: the degenerate map with full weight.
pub open spec fn is_default_system(r: [i64; 7]) -> bool {
    r[0] == 0 && r[1] == 0 && r[2] == 0 && r[3] == 0 && r[4] == 0 && r[5] == 0 && r[6]
        == crate::fixed::SCALE as i64
}

pub fn default_system_row() -> (r: [i64; 7])
    ensures
        is_default_system(r),
{
    [0i64, 0, 0, 0, 0, 0, crate::fixed::SCALE]
}

impl Default for IfsState {
    fn default() -> (s: Self)
        ensures
            !s.is_initialized,
            !s.is_drawing_requested,
            s.dots@.len() == 0,
            s.systems@.len() == 1,
            is_default_system(s.systems@[0]),
            !s.is_coloring_enabled,
            s.color_schemas@ =~= seq![ColorScheme::Standard],
            s.iterations == DEFAULT_ITERATIONS,
            s.radius_cm == DEFAULT_RADIUS,
    {
        let mut systems: Vec<[i64; 7]> = Vec::new();
        systems.push(default_system_row());
        let mut color_schemas: Vec<ColorScheme> = Vec::new();
        color_schemas.push(ColorScheme::Standard);
        IfsState {
            is_initialized: false,
            is_drawing_requested: false,
            dots: Vec::new(),
            systems,
            is_coloring_enabled: false,
            color_schemas,
            iterations: DEFAULT_ITERATIONS,
            radius_cm: DEFAULT_RADIUS,
        }
    }
}

impl IfsState {
    /// Everything but the cloud and the drawing flag is kept.
    pub open spec fn same_parameters(&self, other: &Self) -> bool {
        &&& self.is_initialized == other.is_initialized
        &&& self.systems == other.systems
        &&& self.is_coloring_enabled == other.is_coloring_enabled
        &&& self.color_schemas == other.color_schemas
        &&& self.iterations == other.iterations
        &&& self.radius_cm == other.radius_cm
    }

    /// Regenerate the cloud if drawing was requested, then hand out the
    /// cached cloud. Requires the engine's precondition whenever a
    /// regeneration is due: a drawing request is only made for a map set
    /// that passed validation.
    pub fn shapes(&mut self) -> (r: Result<Vec<Dot>, EngineError>)
        requires
            old(self).color_schemas@.len() == old(self).systems@.len(),
            old(self).systems@.len() <= 1_000_000_000,
            old(self).is_drawing_requested ==> valid_map_set(old(self).systems@),
        ensures
            !final(self).is_drawing_requested,
            final(self).same_parameters(old(self)),
            !old(self).is_drawing_requested ==> {
                &&& final(self).dots == old(self).dots
                &&& r matches Ok(v) && v@ == old(self).dots@
            },
            old(self).is_drawing_requested ==> {
                &&& (r is Ok <==> weight_sum(old(self).systems@) > 0)
                &&& (r matches Ok(v) ==> {
                    &&& v@ == final(self).dots@
                    &&& v@.len() == old(self).iterations + 1
                    &&& v@[0] == default_dot()
                    &&& chaos_chain(
                        old(self).systems@,
                        old(self).color_schemas@,
                        old(self).radius_cm,
                        v@,
                    )
                })
                &&& (r is Err ==> final(self).dots == old(self).dots)
            },
    {
        if self.is_drawing_requested {
            self.is_drawing_requested = false;
            let model = ModelBuilder::default().with_systems(crate::util::copy_vec(&self.systems))
                .with_color_schemas(crate::util::copy_vec(&self.color_schemas)).with_iterations(
                self.iterations,
            ).with_radius(self.radius_cm).build();
            match model.dots() {
                Ok(dots) => {
                    self.dots = dots;
                },
                Err(e) => {
                    return Err(e);
                },
            }
        } else {
            self.is_drawing_requested = false;
        }
        Ok(crate::util::copy_vec(&self.dots))
    }

    pub fn is_initialized(&self) -> (r: bool)
        ensures
            r == self.is_initialized,
    {
        self.is_initialized
    }

    /// Validate the map set; mark the state initialized exactly on
    /// success. A failed validation leaves the flag as it was.
    pub fn initialize(&mut self) -> (r: Result<(), ValidationError>)
        ensures
            r is Ok <==> valid_map_set(old(self).systems@),
            r is Ok ==> final(self).is_initialized,
            r is Err ==> final(self).is_initialized == old(self).is_initialized,
            old(self).systems@.len() == 0 ==> r == Err::<(), ValidationError>(
                ValidationError::NoSystems,
            ),
            old(self).systems@.len() > 0 && !validation::all_weights_in_range(old(self).systems@)
                ==> (r matches Err(e) && exists|i: int|
                {
                    &&& 0 <= i < old(self).systems@.len()
                    &&& !validation::weight_in_range(#[trigger] old(self).systems@[i][6])
                    &&& e == ValidationError::BadProbability(old(self).systems@[i][6])
                    &&& forall|j: int|
                        0 <= j < i ==> validation::weight_in_range(
                            #[trigger] old(self).systems@[j][6],
                        )
                }),
            old(self).systems@.len() > 0 && validation::all_weights_in_range(old(self).systems@)
                && weight_sum(old(self).systems@) > crate::fixed::SCALE + validation::EPSILON ==> r
                == Err::<(), ValidationError>(
                ValidationError::BadProbabilitySum(weight_sum(old(self).systems@) as i128),
            ),
            final(self).systems == old(self).systems,
            final(self).dots == old(self).dots,
            final(self).is_drawing_requested == old(self).is_drawing_requested,
            final(self).color_schemas == old(self).color_schemas,
            final(self).iterations == old(self).iterations,
            final(self).radius_cm == old(self).radius_cm,
            final(self).is_coloring_enabled == old(self).is_coloring_enabled,
    {
        match validation::validate(&self.systems) {
            Ok(()) => {
                self.is_initialized = true;
                Ok(())
            },
            Err(e) => Err(e),
        }
    }

    pub fn reset_initialization(&mut self)
        ensures
            !final(self).is_initialized,
            final(self).is_drawing_requested == old(self).is_drawing_requested,
            final(self).dots == old(self).dots,
            final(self).systems == old(self).systems,
            final(self).color_schemas == old(self).color_schemas,
            final(self).iterations == old(self).iterations,
            final(self).radius_cm == old(self).radius_cm,
            final(self).is_coloring_enabled == old(self).is_coloring_enabled,
    {
        self.is_initialized = false;
    }

    pub fn request_drawing(&mut self)
        ensures
            final(self).is_drawing_requested,
            final(self).same_parameters(old(self)),
            final(self).dots == old(self).dots,
    {
        self.is_drawing_requested = true;
    }

    pub fn is_drawing_requested(&self) -> (r: bool)
        ensures
            r == self.is_drawing_requested,
    {
        self.is_drawing_requested
    }

    /// Append the default system; the edit drops the initialized flag.
    pub fn add_empty_system(&mut self)
        ensures
            !final(self).is_initialized,
            final(self).systems@.len() == old(self).systems@.len() + 1,
            final(self).systems@.drop_last() == old(self).systems@,
            is_default_system(final(self).systems@.last()),
            final(self).color_schemas@ == old(self).color_schemas@.push(ColorScheme::Standard),
            final(self).dots == old(self).dots,
            final(self).is_drawing_requested == old(self).is_drawing_requested,
            final(self).iterations == old(self).iterations,
            final(self).radius_cm == old(self).radius_cm,
            final(self).is_coloring_enabled == old(self).is_coloring_enabled,
    {
        self.reset_initialization();
        self.systems.push(default_system_row());
        self.color_schemas.push(ColorScheme::Standard);
    }

    /// Append a given system row, as a load does; the edit drops the
    /// initialized flag.
    pub fn push_system(&mut self, system: [i64; 7])
        ensures
            !final(self).is_initialized,
            final(self).systems@ == old(self).systems@.push(system),
            final(self).color_schemas@ == old(self).color_schemas@.push(ColorScheme::Standard),
            final(self).dots == old(self).dots,
            final(self).is_drawing_requested == old(self).is_drawing_requested,
            final(self).iterations == old(self).iterations,
            final(self).radius_cm == old(self).radius_cm,
            final(self).is_coloring_enabled == old(self).is_coloring_enabled,
    {
        self.reset_initialization();
        self.systems.push(system);
        self.color_schemas.push(ColorScheme::Standard);
    }

    /// Remove the system at `index`; the edit drops the initialized flag.
    pub fn remove_system(&mut self, index: usize)
        requires
            index < old(self).systems@.len(),
            old(self).systems@.len() == old(self).color_schemas@.len(),
        ensures
            !final(self).is_initialized,
            final(self).systems@ == old(self).systems@.remove(index as int),
            final(self).color_schemas@ == old(self).color_schemas@.remove(index as int),
            final(self).dots == old(self).dots,
            final(self).is_drawing_requested == old(self).is_drawing_requested,
            final(self).iterations == old(self).iterations,
            final(self).radius_cm == old(self).radius_cm,
            final(self).is_coloring_enabled == old(self).is_coloring_enabled,
    {
        self.reset_initialization();
        self.systems.remove(index);
        self.color_schemas.remove(index);
    }

    /// Drop every system and its color scheme; the edit drops the
    /// initialized flag.
    pub fn empty_systems(&mut self)
        ensures
            !final(self).is_initialized,
            final(self).systems@.len() == 0,
            final(self).color_schemas@.len() == 0,
            final(self).dots == old(self).dots,
            final(self).is_drawing_requested == old(self).is_drawing_requested,
            final(self).iterations == old(self).iterations,
            final(self).radius_cm == old(self).radius_cm,
            final(self).is_coloring_enabled == old(self).is_coloring_enabled,
    {
        self.reset_initialization();
        self.systems = Vec::new();
        self.color_schemas = Vec::new();
    }
}

} // verus!

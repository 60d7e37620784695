//! Fractal generation engines: an iterated-function-system (IFS) sampler
//! driven by the chaos game, and an L-System rewriter with a turtle-graphics
//! interpreter. All real-valued quantities (coordinates, probability weights,
//! angles, lengths) are carried as fixed-point integers in micro-units:
//! one unit of the underlying `i64` stands for 1e-6 of the real value.

pub mod angle;
pub mod colors;
pub mod decimal;
pub mod filename;
pub mod fixed;
pub mod fractals;
pub mod geometry;
pub mod ifs;
pub mod lsystem;
pub mod rng;
pub mod text;
pub mod trig;
pub mod util;

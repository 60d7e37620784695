pub mod model;
pub mod serialization;
pub mod state;
pub mod validation;

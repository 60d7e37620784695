pub mod model;
pub mod serialization;
pub mod state;
pub mod system;
pub mod validation;

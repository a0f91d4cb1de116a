//! Finite element structural engine: model description, model building,
//! validation, degree-of-freedom numbering and sparse assembly structure,
//! audit trail, result queries and report data.
//!
//! Every numeric quantity of the model (coordinates, section and material
//! properties, load intensities, results) has a caller-chosen scalar type `F`;
//! the library carries such values and never computes with them.

pub mod analysis;
pub mod audit;
pub mod builder;
mod clock;
pub mod digest;
pub mod export;
pub mod prelude;
pub mod structure;
pub mod text;
pub mod validation;

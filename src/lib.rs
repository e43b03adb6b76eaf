//! Source generation for builder types, accessors and constructors, from a
//! structural description of a record type.
pub mod companions;
pub mod emit;
pub mod laws;
pub mod model;
pub mod plan;
pub mod attrs;
pub mod runtime;
pub mod text;
pub mod types;

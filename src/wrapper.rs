//! Generators of calling-convention wrappers.
pub mod convention;

//! Code generation helpers.
pub mod x64;

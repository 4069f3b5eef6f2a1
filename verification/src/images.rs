//! Concrete image descriptions.

pub mod generic;
pub mod laws;

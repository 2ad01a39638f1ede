//! Small helpers.
pub mod general;

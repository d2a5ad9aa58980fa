//! Supervised inversion of waveguide S-parameters into complex permittivity:
//! the rules of the pipeline, from raw samples to training plans and reports.
//!
//! Numbers that the pipeline measures or learns travel through this crate as
//! [`scalar::Scalar`] values, which hold the IEEE-754 bit pattern of a double.

pub mod base;
pub mod cli;
pub mod data;
pub mod json;
pub mod model;
pub mod paths;
pub mod prng;
pub mod scalar;
pub mod sort;
pub mod text;
pub mod workflows;

//! Errors, validation, grids, seeds, metrics and naming rules.

pub mod config;
pub mod determinism;
pub mod error;
pub mod grid;
pub mod io;
pub mod math;
pub mod metrics;
pub mod rng;
pub mod s_params;
pub mod validation;

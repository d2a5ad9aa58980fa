//! Command lines: how arguments, configuration files and defaults combine.

pub mod benchmark;
pub mod evaluate;
pub mod generate;
pub mod hpo;
pub mod shared;
pub mod train;
pub mod train_single;

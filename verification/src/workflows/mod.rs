//! The plans and decisions of the pipeline's runs.

pub mod benchmark;
pub mod config;
pub mod data_prep;
pub mod ensemble;
pub mod error_report;
pub mod evaluate;
pub mod evaluation;
pub mod generate;
pub mod grid_chart;
pub mod hpo;
pub mod hpo_form;
pub mod hpo_study;
pub mod infer;
pub mod losses;
pub mod nrw_diagnostics;
pub mod stacked_metrics;
pub mod stacked_training;
pub mod train;
pub mod train_form;

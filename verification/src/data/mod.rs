//! Datasets: tensors of values, batching, scaling, generation and layout.

pub mod complex_tensor;
pub mod csv_table;
pub mod generation;
pub mod loader;
pub mod scaling;
pub mod tensor;
pub mod tensor_bridges;

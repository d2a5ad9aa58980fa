//! What a generation run leaves behind.

use crate::data::generation::{DataGenerationConfig, GeneratedDataset, PermittivitySample};
use crate::scalar::Scalar;
use vstd::prelude::*;

verus! {

/// How many samples a run has written.
#[derive(Clone, Copy, Debug, PartialEq, Eq, Structural)]
pub struct GenerateRunResult {
    pub train_samples: usize,
    pub val_samples: usize,
    pub test_samples: usize,
}

/// The samples of a run that writes no files.
#[derive(Debug)]
pub struct GenerateInMemoryResult {
    pub train: Vec<PermittivitySample>,
    pub validation: Vec<PermittivitySample>,
    pub test: Vec<PermittivitySample>,
}

/// The settings that are kept beside a dataset.
#[derive(Clone, Copy, Debug, PartialEq, Eq)]
pub struct GenerationManifest {
    pub eps_prime_range: (Scalar, Scalar),
    pub eps_secund_range: (Scalar, Scalar),
    pub grid_nx: usize,
    pub grid_ny: usize,
    pub train_ratio: Scalar,
    pub frequency: Scalar,
    pub waveguide_width: Scalar,
    pub sample_thickness: Scalar,
    pub seed: u64,
    pub train_samples: usize,
    pub val_samples: usize,
    pub test_samples: usize,
}

/// The samples of a dataset, split by split.
pub fn in_memory_result(dataset: GeneratedDataset) -> (result: GenerateInMemoryResult)
    ensures
        result.train == dataset.train,
        result.validation == dataset.validation,
        result.test == dataset.test,
{
    GenerateInMemoryResult {
        train: dataset.train,
        validation: dataset.validation,
        test: dataset.test,
    }
}

/// How many samples a dataset has, split by split.
pub fn run_result(dataset: &GeneratedDataset) -> (result: GenerateRunResult)
    ensures
        result.train_samples == dataset.train@.len(),
        result.val_samples == dataset.validation@.len(),
        result.test_samples == dataset.test@.len(),
{
    GenerateRunResult {
        train_samples: dataset.train.len(),
        val_samples: dataset.validation.len(),
        test_samples: dataset.test.len(),
    }
}

/// The settings that are kept beside a dataset.
pub fn manifest(config: &DataGenerationConfig, dataset: &GeneratedDataset) -> (result:
    GenerationManifest)
    ensures
        result.eps_prime_range == config.eps_prime_range,
        result.eps_secund_range == config.eps_double_prime_range,
        result.grid_nx == config.n_eps_prime_train,
        result.grid_ny == config.n_eps_double_prime_train,
        result.train_ratio == config.train_ratio,
        result.frequency == config.frequency,
        result.waveguide_width == config.a,
        result.sample_thickness == config.d,
        result.seed == config.seed,
        result.train_samples == dataset.train@.len(),
        result.val_samples == dataset.validation@.len(),
        result.test_samples == dataset.test@.len(),
{
    let counts = run_result(dataset);
    GenerationManifest {
        eps_prime_range: config.eps_prime_range,
        eps_secund_range: config.eps_double_prime_range,
        grid_nx: config.n_eps_prime_train,
        grid_ny: config.n_eps_double_prime_train,
        train_ratio: config.train_ratio,
        frequency: config.frequency,
        waveguide_width: config.a,
        sample_thickness: config.d,
        seed: config.seed,
        train_samples: counts.train_samples,
        val_samples: counts.val_samples,
        test_samples: counts.test_samples,
    }
}

} // verus!

//! Settings of a dataset.

use super::shared::{first_given, pick};
use crate::data::generation::{standard_config, DataGenerationConfig};
use crate::scalar::Scalar;
use vstd::prelude::*;

verus! {

/// Settings of a dataset, as far as they were given.
#[derive(Clone, Copy, Debug, Default)]
pub struct GenerateDataArgs {
    pub eps_prime_range: Option<(Scalar, Scalar)>,
    pub eps_secund_range: Option<(Scalar, Scalar)>,
    pub grid_nx: Option<usize>,
    pub grid_ny: Option<usize>,
    pub train_ratio: Option<Scalar>,
    pub frequency: Option<Scalar>,
    pub waveguide_width: Option<Scalar>,
    pub sample_thickness: Option<Scalar>,
}

/// The configuration that a file and a command line make together: the file comes
/// first, then the command line, then the standard dataset.
pub open spec fn combined_config(
    file: GenerateDataArgs,
    line: GenerateDataArgs,
    seed: u64,
) -> DataGenerationConfig {
    let standard = standard_config();
    DataGenerationConfig {
        d: first_given(file.sample_thickness, line.sample_thickness, standard.d),
        a: first_given(file.waveguide_width, line.waveguide_width, standard.a),
        frequency: first_given(file.frequency, line.frequency, standard.frequency),
        eps_prime_range: first_given(
            file.eps_prime_range,
            line.eps_prime_range,
            standard.eps_prime_range,
        ),
        eps_double_prime_range: first_given(
            file.eps_secund_range,
            line.eps_secund_range,
            standard.eps_double_prime_range,
        ),
        n_eps_prime_train: first_given(file.grid_nx, line.grid_nx, 200),
        n_eps_double_prime_train: first_given(file.grid_ny, line.grid_ny, 100),
        train_ratio: first_given(file.train_ratio, line.train_ratio, standard.train_ratio),
        seed,
        ..standard
    }
}

/// Combines the settings of a configuration file and a command line.
pub fn combine_generate_args(
    file: &GenerateDataArgs,
    line: &GenerateDataArgs,
    seed: u64,
) -> (result: DataGenerationConfig)
    ensures
        result == combined_config(*file, *line, seed),
{
    let standard = DataGenerationConfig::default();
    DataGenerationConfig {
        d: pick(file.sample_thickness, line.sample_thickness, standard.d),
        a: pick(file.waveguide_width, line.waveguide_width, standard.a),
        frequency: pick(file.frequency, line.frequency, standard.frequency),
        eps_prime_range: pick(
            file.eps_prime_range,
            line.eps_prime_range,
            standard.eps_prime_range,
        ),
        eps_double_prime_range: pick(
            file.eps_secund_range,
            line.eps_secund_range,
            standard.eps_double_prime_range,
        ),
        n_eps_prime_train: pick(file.grid_nx, line.grid_nx, 200),
        n_eps_double_prime_train: pick(file.grid_ny, line.grid_ny, 100),
        train_ratio: pick(file.train_ratio, line.train_ratio, standard.train_ratio),
        seed,
        ..standard
    }
}

/// The standard dataset without displacement: every split covers the whole domain.
pub fn undisplaced_config() -> (result: DataGenerationConfig)
    ensures
        result == (DataGenerationConfig {
            val_offset: (Scalar { bits: 0 }, Scalar { bits: 0 }),
            test_offset: (Scalar { bits: 0 }, Scalar { bits: 0 }),
            dense_patch_val_offset: (Scalar { bits: 0 }, Scalar { bits: 0 }),
            dense_patch_test_offset: (Scalar { bits: 0 }, Scalar { bits: 0 }),
            ..standard_config()
        }),
{
    let none = (Scalar::zero(), Scalar::zero());
    let standard = DataGenerationConfig::default();
    DataGenerationConfig {
        val_offset: none,
        test_offset: none,
        dense_patch_val_offset: none,
        dense_patch_test_offset: none,
        ..standard
    }
}

/// A dataset is generated with what the configuration file sets, else with what the command
/// line sets, else as the standard dataset is, under the seed of the program.
pub proof fn datasets_go_by_the_file_first(
    file: GenerateDataArgs,
    line: GenerateDataArgs,
    seed: u64,
)
    ensures
        ({
            let config = combined_config(file, line, seed);
            &&& config.seed == seed
            &&& file.sample_thickness is Some ==> config.d == file.sample_thickness->0
            &&& file.sample_thickness is None && line.sample_thickness is Some ==> config.d == line.sample_thickness->0
            &&& file.sample_thickness is None && line.sample_thickness is None ==> config.d == standard_config().d
            &&& file.waveguide_width is Some ==> config.a == file.waveguide_width->0
            &&& file.waveguide_width is None && line.waveguide_width is Some ==> config.a == line.waveguide_width->0
            &&& file.waveguide_width is None && line.waveguide_width is None ==> config.a == standard_config().a
            &&& file.frequency is Some ==> config.frequency == file.frequency->0
            &&& file.frequency is None && line.frequency is Some ==> config.frequency == line.frequency->0
            &&& file.frequency is None && line.frequency is None ==> config.frequency == standard_config().frequency
            &&& file.eps_prime_range is Some ==> config.eps_prime_range == file.eps_prime_range->0
            &&& file.eps_prime_range is None && line.eps_prime_range is Some ==> config.eps_prime_range == line.eps_prime_range->0
            &&& file.eps_prime_range is None && line.eps_prime_range is None ==> config.eps_prime_range == standard_config().eps_prime_range
            &&& file.eps_secund_range is Some ==> config.eps_double_prime_range == file.eps_secund_range->0
            &&& file.eps_secund_range is None && line.eps_secund_range is Some ==> config.eps_double_prime_range == line.eps_secund_range->0
            &&& file.eps_secund_range is None && line.eps_secund_range is None ==> config.eps_double_prime_range == standard_config().eps_double_prime_range
            &&& file.grid_nx is Some ==> config.n_eps_prime_train == file.grid_nx->0
            &&& file.grid_nx is None && line.grid_nx is Some ==> config.n_eps_prime_train == line.grid_nx->0
            &&& file.grid_nx is None && line.grid_nx is None ==> config.n_eps_prime_train == standard_config().n_eps_prime_train
            &&& file.grid_ny is Some ==> config.n_eps_double_prime_train == file.grid_ny->0
            &&& file.grid_ny is None && line.grid_ny is Some ==> config.n_eps_double_prime_train == line.grid_ny->0
            &&& file.grid_ny is None && line.grid_ny is None ==> config.n_eps_double_prime_train == standard_config().n_eps_double_prime_train
            &&& file.train_ratio is Some ==> config.train_ratio == file.train_ratio->0
            &&& file.train_ratio is None && line.train_ratio is Some ==> config.train_ratio == line.train_ratio->0
            &&& file.train_ratio is None && line.train_ratio is None ==> config.train_ratio == standard_config().train_ratio
            &&& config.val_offset == standard_config().val_offset
            &&& config.test_offset == standard_config().test_offset
            &&& config.dense_patch_eps_prime_range == standard_config().dense_patch_eps_prime_range
            &&& config.dense_patch_eps_double_prime_range == standard_config().dense_patch_eps_double_prime_range
            &&& config.dense_patch_n_train == standard_config().dense_patch_n_train
            &&& config.dense_patch_n_eval == standard_config().dense_patch_n_eval
            &&& config.dense_patch_val_offset == standard_config().dense_patch_val_offset
            &&& config.dense_patch_test_offset == standard_config().dense_patch_test_offset
        }),
{
}

} // verus!

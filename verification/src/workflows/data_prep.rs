//! What a run feeds its model: batches, splits and the source of its scalers.

use crate::base::error::{msg_error, CoreError};
use crate::data::generation::PermittivitySample;
use crate::data::loader::{pair_fault, BatchSize, DataLoader};
use crate::data::tensor::Tensor;
use crate::data::tensor_bridges::{
    holds_rows, packed_features, packed_targets, real_features, real_targets, samples_to_tensors,
    PredictionEncoding, TensorDataset,
};
use crate::model::ModelType;
use crate::scalar::Scalar;
use crate::text::{
    concat3, decimal_value, is_machine_numeral, numeral_digits, read_usize, same_text,
    to_ascii_uppercase, uppered, usize_complaint,
};
use vstd::prelude::*;
use vstd::string::StringExecFns;

verus! {

/// What a batch size is written as: `all` in any case, or a count.
pub open spec fn batch_size_written(text: Seq<char>) -> Option<BatchSize> {
    let value = uppered(text);
    if value == "ALL"@ {
        Some(BatchSize::All)
    } else if is_machine_numeral(value) {
        Some(BatchSize::Fixed(decimal_value(numeral_digits(value)) as usize))
    } else {
        None
    }
}

/// The message for a text that is no batch size.
pub open spec fn bad_batch_size(text: Seq<char>) -> Seq<char> {
    let value = uppered(text);
    "invalid batch size '"@ + value + "': "@ + usize_complaint(value)->Some_0
}

/// Reads a batch size.
pub fn parse_batch_size(text: &str) -> (result: Result<BatchSize, CoreError>)
    ensures
        result is Ok <==> batch_size_written(text@) is Some,
        result matches Ok(size) ==> batch_size_written(text@) == Some(size),
        result matches Err(e) ==> e.says(bad_batch_size(text@)),
{
    let value = to_ascii_uppercase(text);
    if same_text(value.as_str(), "ALL") {
        return Ok(BatchSize::All);
    }
    match read_usize(value.as_str()) {
        Ok(n) => Ok(BatchSize::Fixed(n)),
        Err(complaint) => {
            let mut message = concat3("invalid batch size '", value.as_str(), "': ");
            message.append(complaint.as_str());
            Err(CoreError::Msg(message))
        },
    }
}

/// A loader over features and targets that are already scaled. Its own shuffle seed
/// replaces the one of the process.
pub fn build_loader(
    scaled_features: Tensor,
    scaled_targets: Tensor,
    batch_size: BatchSize,
    shuffle: bool,
    seed: u64,
) -> (result: Result<DataLoader, CoreError>)
    requires
        scaled_features.wf(),
        scaled_targets.wf(),
    ensures
        result is Ok <==> pair_fault(scaled_features, scaled_targets) is None
            && batch_size.valid(),
        result matches Ok(loader) ==> {
            &&& loader.wf()
            &&& loader.features_view() == scaled_features
            &&& loader.targets_view() == scaled_targets
            &&& loader.batch_size_view() == batch_size
            &&& loader.shuffles() == shuffle
            &&& loader.seed() == seed
            &&& loader.next_epoch() == 0
        },
        result matches Err(e) ==> e.says(
            match pair_fault(scaled_features, scaled_targets) {
                Some(text) => text,
                None => "DataLoader batch size must be greater than zero"@,
            },
        ),
{
    match DataLoader::new(scaled_features, scaled_targets, batch_size, seed) {
        Ok(loader) => Ok(loader.with_shuffle(shuffle).with_seed(seed)),
        Err(e) => Err(e),
    }
}

/// The features and targets of the three splits. Scalers are fitted on those of
/// the training split alone.
#[derive(Debug)]
pub struct PreparedTensorSplits {
    pub train_features: Tensor,
    pub train_targets: Tensor,
    pub val_features: Tensor,
    pub val_targets: Tensor,
    pub test_features: Tensor,
    pub test_targets: Tensor,
    pub encoding: PredictionEncoding,
}

/// The feature row of a sample for a family.
pub open spec fn feature_row(model_type: ModelType, s: PermittivitySample) -> Seq<Scalar> {
    match model_type {
        ModelType::Real => real_features(s),
        ModelType::Complex => packed_features(s),
    }
}

/// The target row of a sample for a family.
pub open spec fn target_row(model_type: ModelType, s: PermittivitySample) -> Seq<Scalar> {
    match model_type {
        ModelType::Real => real_targets(s),
        ModelType::Complex => packed_targets(s),
    }
}

/// The feature rows of samples for a family.
pub open spec fn feature_rows(
    model_type: ModelType,
    samples: Seq<PermittivitySample>,
) -> Seq<Seq<Scalar>> {
    samples.map_values(|s: PermittivitySample| feature_row(model_type, s))
}

/// Two samples have the same scattering parameters.
pub open spec fn same_measurement(a: PermittivitySample, b: PermittivitySample) -> bool {
    &&& a.s11_real == b.s11_real
    &&& a.s11_imag == b.s11_imag
    &&& a.s21_real == b.s21_real
    &&& a.s21_imag == b.s21_imag
}

/// Sample by sample, two lists have the same scattering parameters.
pub open spec fn same_measurements(
    first: Seq<PermittivitySample>,
    second: Seq<PermittivitySample>,
) -> bool {
    &&& first.len() == second.len()
    &&& forall|i: int| 0 <= i < first.len() ==> same_measurement(#[trigger] first[i], second[i])
}

/// The features of samples depend on their scattering parameters alone: neither the
/// permittivity nor the mark of a dense patch reaches a model.
pub proof fn features_are_measurements(
    model_type: ModelType,
    first: Seq<PermittivitySample>,
    second: Seq<PermittivitySample>,
    features: Tensor,
)
    requires
        same_measurements(first, second),
    ensures
        feature_rows(model_type, first) == feature_rows(model_type, second),
        features_of(features, model_type, first) == features_of(features, model_type, second),
{
    assert forall|i: int| 0 <= i < first.len() implies feature_row(
        model_type,
        #[trigger] first[i],
    ) == feature_row(model_type, second[i]) by {
        assert(same_measurement(first[i], second[i]));
    }
    assert(feature_rows(model_type, first) =~= feature_rows(model_type, second));
}

/// The features of samples for a family.
pub open spec fn features_of(
    t: Tensor,
    model_type: ModelType,
    samples: Seq<PermittivitySample>,
) -> bool {
    holds_rows(t, feature_rows(model_type, samples), 4)
}

/// The targets of samples for a family.
pub open spec fn targets_of(
    t: Tensor,
    model_type: ModelType,
    samples: Seq<PermittivitySample>,
) -> bool {
    holds_rows(t, samples.map_values(|s: PermittivitySample| target_row(model_type, s)), 2)
}

/// How predictions of a family are encoded. Only real ones may have the sign of
/// their imaginary part turned.
pub open spec fn encoding_of(model_type: ModelType, negate_real_imag: bool) -> PredictionEncoding {
    match model_type {
        ModelType::Real => PredictionEncoding::RealColumns { negate_imag: negate_real_imag },
        ModelType::Complex => PredictionEncoding::PackedComplex {
            complex_feature_count: 1,
            negate_imag: false,
        },
    }
}

/// The features, targets and encoding of samples for a family.
pub fn tensors_from_samples(
    model_type: ModelType,
    samples: &Vec<PermittivitySample>,
    negate_real_imag: bool,
) -> (result: TensorDataset)
    requires
        samples@.len() * 4 <= usize::MAX,
    ensures
        features_of(result.features, model_type, samples@),
        targets_of(result.targets, model_type, samples@),
        result.encoding == encoding_of(model_type, negate_real_imag),
{
    let result = samples_to_tensors(model_type, samples.as_slice(), negate_real_imag);
    proof {
        match model_type {
            ModelType::Real => {
                assert(samples@.map_values(|s: PermittivitySample| real_features(s))
                    =~= samples@.map_values(
                    |s: PermittivitySample| feature_row(model_type, s),
                ));
                assert(samples@.map_values(|s: PermittivitySample| real_targets(s))
                    =~= samples@.map_values(
                    |s: PermittivitySample| target_row(model_type, s),
                ));
            },
            ModelType::Complex => {
                assert(samples@.map_values(|s: PermittivitySample| packed_features(s))
                    =~= samples@.map_values(
                    |s: PermittivitySample| feature_row(model_type, s),
                ));
                assert(samples@.map_values(|s: PermittivitySample| packed_targets(s))
                    =~= samples@.map_values(
                    |s: PermittivitySample| target_row(model_type, s),
                ));
            },
        }
    }
    result
}

/// The features and targets of the splits of a run.
pub fn prepare_splits_from_samples(
    train: &Vec<PermittivitySample>,
    val: &Vec<PermittivitySample>,
    test: &Vec<PermittivitySample>,
    model_type: ModelType,
    negate_real_imag: bool,
) -> (result: PreparedTensorSplits)
    requires
        train@.len() * 4 <= usize::MAX,
        val@.len() * 4 <= usize::MAX,
        test@.len() * 4 <= usize::MAX,
    ensures
        features_of(result.train_features, model_type, train@),
        targets_of(result.train_targets, model_type, train@),
        features_of(result.val_features, model_type, val@),
        targets_of(result.val_targets, model_type, val@),
        features_of(result.test_features, model_type, test@),
        targets_of(result.test_targets, model_type, test@),
        result.encoding == encoding_of(model_type, negate_real_imag),
{
    let train_set = tensors_from_samples(model_type, train, negate_real_imag);
    let val_set = tensors_from_samples(model_type, val, negate_real_imag);
    let test_set = tensors_from_samples(model_type, test, negate_real_imag);
    PreparedTensorSplits {
        train_features: train_set.features,
        train_targets: train_set.targets,
        val_features: val_set.features,
        val_targets: val_set.targets,
        test_features: test_set.features,
        test_targets: test_set.targets,
        encoding: train_set.encoding,
    }
}

/// Where the scalers of an evaluation come from.
#[derive(Clone, Copy, Debug, PartialEq, Eq, Structural)]
pub enum ScalerSource {
    /// They were fitted before.
    Cached,
    /// They are fitted on the training samples.
    TrainingSamples,
    /// There are no training samples: they are fitted on the test samples.
    TestSamples,
}

/// Where the scalers of an evaluation come from: what was fitted before comes first,
/// then the training samples, and the test samples where there are none.
pub open spec fn source_of_scalers(cached: bool, training_samples: nat) -> ScalerSource {
    if cached {
        ScalerSource::Cached
    } else if training_samples > 0 {
        ScalerSource::TrainingSamples
    } else {
        ScalerSource::TestSamples
    }
}

/// With scalers that were fitted before, the training samples do not matter.
pub proof fn fitted_scalers_need_no_samples(first: nat, second: nat)
    ensures
        source_of_scalers(true, first) == source_of_scalers(true, second),
        source_of_scalers(true, first) == ScalerSource::Cached,
{
}

/// Where the scalers of an evaluation come from.
pub fn scaler_source(cached: bool, training_samples: usize) -> (result: ScalerSource)
    ensures
        result == source_of_scalers(cached, training_samples as nat),
{
    if cached {
        ScalerSource::Cached
    } else if training_samples > 0 {
        ScalerSource::TrainingSamples
    } else {
        ScalerSource::TestSamples
    }
}

/// Where the scalers of a single inference come from. There are no test samples to
/// fall back on.
pub fn inference_scaler_source(cached: bool, training_samples: usize) -> (result: Result<
    ScalerSource,
    CoreError,
>)
    ensures
        result is Ok <==> cached || training_samples > 0,
        result matches Ok(source) ==> source == if cached {
            ScalerSource::Cached
        } else {
            ScalerSource::TrainingSamples
        },
        result matches Err(e) ==> e.says("no training samples available to fit scalers"@),
{
    if cached {
        Ok(ScalerSource::Cached)
    } else if training_samples > 0 {
        Ok(ScalerSource::TrainingSamples)
    } else {
        Err(msg_error("no training samples available to fit scalers"))
    }
}

/// Features are the measurement and targets the permittivity, in the layout of the
/// family; only real models may ask for the sign of the imaginary part to be turned when
/// predictions are read.
pub proof fn families_have_their_layouts(s: PermittivitySample, negate_real_imag: bool)
    ensures
        feature_row(ModelType::Real, s) == seq![s.s11_real, s.s11_imag, s.s21_real, s.s21_imag],
        feature_row(ModelType::Complex, s) == seq![
            s.s11_real,
            s.s21_real,
            s.s11_imag,
            s.s21_imag,
        ],
        target_row(ModelType::Real, s) == seq![s.eps_prime, s.eps_double_prime],
        target_row(ModelType::Complex, s) == seq![s.eps_prime, s.eps_double_prime.flipped()],
        encoding_of(ModelType::Real, negate_real_imag) == (PredictionEncoding::RealColumns {
            negate_imag: negate_real_imag,
        }),
        encoding_of(ModelType::Complex, negate_real_imag) == (PredictionEncoding::PackedComplex {
            complex_feature_count: 1,
            negate_imag: false,
        }),
{
}

/// Every sample has its own row, in its place, of features and of targets.
pub proof fn rows_follow_the_samples(
    t: Tensor,
    model_type: ModelType,
    samples: Seq<PermittivitySample>,
    i: int,
)
    requires
        0 <= i < samples.len(),
    ensures
        features_of(t, model_type, samples) ==> t.rows().len() == samples.len() && t.rows()[i]
            == feature_row(model_type, samples[i]),
        targets_of(t, model_type, samples) ==> t.rows().len() == samples.len() && t.rows()[i]
            == target_row(model_type, samples[i]),
{
}

/// Fitted scalers are used where there are any, else training samples are fitted, and test
/// samples only for want of both.
pub proof fn training_samples_come_before_test_samples(training_samples: nat)
    ensures
        source_of_scalers(true, training_samples) is Cached,
        training_samples > 0 ==> source_of_scalers(false, training_samples) is TrainingSamples,
        source_of_scalers(false, 0) is TestSamples,
{
}

/// The word for all samples is read in any case, and a number as that many samples; nothing
/// else is a batch size.
pub proof fn batch_sizes_are_all_or_a_number(text: Seq<char>)
    ensures
        uppered(text) == "ALL"@ ==> batch_size_written(text) == Some(BatchSize::All),
        batch_size_written(text) == Some(BatchSize::All) ==> uppered(text) == "ALL"@,
        uppered(text) != "ALL"@ ==> (batch_size_written(text) is Some <==> is_machine_numeral(
            uppered(text),
        )),
        batch_size_written(text) matches Some(BatchSize::Fixed(size)) ==> is_machine_numeral(
            uppered(text),
        ) && size == decimal_value(numeral_digits(uppered(text))) as usize,
{
}

} // verus!

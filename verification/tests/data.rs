//! Batching, scaling and the layout of samples in tensors.

use sparam::base::error::CoreError;
use sparam::data::generation::PermittivitySample;
use sparam::data::loader::{divide_up, BatchSize, BatchSource, DataLoader, DataLoaderIter};
use sparam::data::scaling::{
    replace_zero_with_one, validate_data, IdentityScaler, MinMaxScaler, StandardScaler,
};
use sparam::data::tensor::{DType, Device, Tensor};
use sparam::data::tensor_bridges::{
    pack_complex_features, samples_to_complex_tensors, samples_to_packed_complex_tensors,
    samples_to_real_tensors, samples_to_tensors, unpack_complex_features, PredictionEncoding,
};
use sparam::model::ModelType;
use sparam::scalar::Scalar;
use sparam::workflows::data_prep::{
    build_loader, inference_scaler_source, parse_batch_size, prepare_splits_from_samples,
    scaler_source, tensors_from_samples, ScalerSource,
};

fn num(value: f64) -> Scalar {
    Scalar::from_bits(value.to_bits())
}

fn val(value: Scalar) -> f64 {
    f64::from_bits(value.bits)
}

fn nums(values: &[f64]) -> Vec<Scalar> {
    values.iter().map(|v| num(*v)).collect()
}

fn vals(values: &[Scalar]) -> Vec<f64> {
    values.iter().map(|v| val(*v)).collect()
}

fn tensor(values: &[f64], dims: &[usize]) -> Tensor {
    Tensor { dims: dims.to_vec(), values: nums(values), dtype: DType::F64, device: Device::Cpu }
}

fn rows(t: &Tensor) -> Vec<Vec<f64>> {
    vals(&t.values).chunks(t.dims[1]).map(|row| row.to_vec()).collect()
}

fn batches(loader: &DataLoader, mut pass: DataLoaderIter) -> Vec<(Tensor, Tensor)> {
    let mut all = Vec::new();
    while let Some(batch) = pass.next(loader) {
        all.push(batch);
    }
    all
}

fn feature_order(loader: &DataLoader, pass: DataLoaderIter) -> Vec<f64> {
    batches(loader, pass).iter().flat_map(|batch| vals(&batch.0.values)).collect()
}

fn assert_close(actual: f64, expected: f64) {
    assert!((actual - expected).abs() < 1e-12, "expected {expected}, got {actual}");
}

fn columns(t: &Tensor) -> Vec<Vec<f64>> {
    (0..t.dims[1]).map(|c| rows(t).iter().map(|row| row[c]).collect()).collect()
}

fn fit_standard(scaler: &mut StandardScaler, data: &Tensor) -> Result<(), CoreError> {
    scaler.check_fit(data)?;
    let n = data.dims[0] as f64;
    let means: Vec<f64> = columns(data).iter().map(|c| c.iter().sum::<f64>() / n).collect();
    let deviations: Vec<f64> = columns(data)
        .iter()
        .zip(means.iter())
        .map(|(c, m)| (c.iter().map(|v| (v - m).powi(2)).sum::<f64>() / n).sqrt())
        .collect();
    scaler.record_fit(nums(&means), nums(&deviations));
    Ok(())
}

fn standardize(scaler: &StandardScaler, data: &Tensor) -> Result<Tensor, CoreError> {
    let (mean, std) = scaler.stats_for(data, "transform")?;
    let (mean, std) = (vals(&mean.values), vals(&std.values));
    let values: Vec<f64> = rows(data)
        .iter()
        .flat_map(|row| (0..row.len()).map(|c| (row[c] - mean[c]) / std[c]).collect::<Vec<f64>>())
        .collect();
    Ok(tensor(&values, &data.dims))
}

fn destandardize(scaler: &StandardScaler, data: &Tensor) -> Result<Tensor, CoreError> {
    let (mean, std) = scaler.stats_for(data, "inverse_transform")?;
    let (mean, std) = (vals(&mean.values), vals(&std.values));
    let values: Vec<f64> = rows(data)
        .iter()
        .flat_map(|row| (0..row.len()).map(|c| row[c] * std[c] + mean[c]).collect::<Vec<f64>>())
        .collect();
    Ok(tensor(&values, &data.dims))
}

fn fit_minmax(scaler: &mut MinMaxScaler, data: &Tensor) -> Result<(), CoreError> {
    scaler.check_fit(data)?;
    let minima: Vec<f64> =
        columns(data).iter().map(|c| c.iter().copied().fold(f64::INFINITY, f64::min)).collect();
    let spans: Vec<f64> = columns(data)
        .iter()
        .zip(minima.iter())
        .map(|(c, low)| c.iter().copied().fold(f64::NEG_INFINITY, f64::max) - low)
        .collect();
    scaler.record_fit(nums(&minima), nums(&spans));
    Ok(())
}

fn squeeze(scaler: &MinMaxScaler, data: &Tensor, back: bool) -> Result<Tensor, CoreError> {
    let operation = if back { "inverse_transform" } else { "transform" };
    let (low, span) = scaler.stats_for(data, operation)?;
    let (low, span) = (vals(&low.values), vals(&span.values));
    let (a, b) = (val(scaler.feature_range().0), val(scaler.feature_range().1));
    let values: Vec<f64> = rows(data)
        .iter()
        .flat_map(|row| {
            (0..row.len())
                .map(|c| {
                    if back {
                        (row[c] - a) / (b - a) * span[c] + low[c]
                    } else {
                        (row[c] - low[c]) / span[c] * (b - a) + a
                    }
                })
                .collect::<Vec<f64>>()
        })
        .collect();
    Ok(tensor(&values, &data.dims))
}

#[test]
fn features_see_measurements_only() {
    let plain = sample();
    let other = PermittivitySample {
        eps_prime: num(99.0),
        eps_double_prime: num(7.0),
        is_dense_patch: !plain.is_dense_patch,
        ..plain
    };
    for family in [ModelType::Real, ModelType::Complex] {
        let first = tensors_from_samples(family, &vec![plain, other], false);
        let second = tensors_from_samples(family, &vec![other, plain], false);
        assert_eq!(first.features.values, second.features.values);
        assert_ne!(first.targets.values, second.targets.values);
    }
    assert_eq!(scaler_source(true, 0), scaler_source(true, 5));
}

fn sample() -> PermittivitySample {
    PermittivitySample {
        s11_real: num(1.0),
        s11_imag: num(2.0),
        s21_real: num(3.0),
        s21_imag: num(4.0),
        eps_prime: num(5.0),
        eps_double_prime: num(6.0),
        is_dense_patch: false,
    }
}

#[test]
fn test_dataloader_yields_fixed_batches_and_last_remainder() {
    let features = tensor(&[1.0, 10.0, 2.0, 20.0, 3.0, 30.0, 4.0, 40.0, 5.0, 50.0], &[5, 2]);
    let targets = tensor(&[101.0, 102.0, 103.0, 104.0, 105.0], &[5, 1]);
    let mut loader = DataLoader::new(features, targets, BatchSize::Fixed(2), 42).unwrap();

    let pass = loader.iter();
    let all = batches(&loader, pass);

    assert_eq!(loader.sample_count(), 5);
    assert_eq!(loader.num_batches(), 3);
    assert_eq!(all.len(), 3);
    assert_eq!(all[0].0.dims, vec![2, 2]);
    assert_eq!(all[1].0.dims, vec![2, 2]);
    assert_eq!(all[2].0.dims, vec![1, 2]);
    assert_eq!(all[2].1.dims, vec![1, 1]);
    assert_eq!(vals(&all[0].0.values), vec![1.0, 10.0, 2.0, 20.0]);
    assert_eq!(vals(&all[2].1.values), vec![105.0]);
}

#[test]
fn test_dataloader_iterator_reports_exact_remaining_batch_count() {
    let features = tensor(&[1.0, 2.0, 3.0, 4.0, 5.0, 6.0], &[3, 2]);
    let targets = tensor(&[10.0, 20.0, 30.0], &[3, 1]);
    let mut loader = DataLoader::new(features, targets, BatchSize::Fixed(2), 42).unwrap();
    let mut iter = loader.iter();

    assert_eq!(iter.remaining_batches(), 2);

    assert!(iter.next(&loader).is_some());
    assert_eq!(iter.remaining_batches(), 1);

    assert!(iter.next(&loader).is_some());
    assert_eq!(iter.remaining_batches(), 0);
    assert!(iter.next(&loader).is_none());
}

#[test]
fn test_dataloader_supports_all_batch_size_and_dataset_column_split() {
    let dataset = tensor(
        &[1.0, 2.0, 3.0, 4.0, 10.0, 20.0, 5.0, 6.0, 7.0, 8.0, 30.0, 40.0],
        &[2, 6],
    );
    let mut loader = DataLoader::from_dataset_columns(dataset, 4, BatchSize::All, 42).unwrap();
    let mut iter = loader.iter();

    let (features, targets) = iter.next(&loader).expect("one batch should be yielded");

    assert_eq!(loader.num_batches(), 1);
    assert_eq!(loader.feature_count(), 4);
    assert_eq!(loader.target_count(), 2);
    assert_eq!(features.dims, vec![2, 4]);
    assert_eq!(targets.dims, vec![2, 2]);
    assert_eq!(vals(&targets.values), vec![10.0, 20.0, 30.0, 40.0]);
    assert!(iter.next(&loader).is_none());
}

#[test]
fn column_loaders_keep_type_and_place() {
    let mut dataset = tensor(&[1.0, 2.0, 3.0, 4.0], &[2, 2]);
    dataset.dtype = DType::F32;
    dataset.device = Device::Cuda(1);
    let mut loader = DataLoader::from_dataset_columns(dataset, 1, BatchSize::All, 42).unwrap();
    let mut iter = loader.iter();
    let (features, targets) = iter.next(&loader).expect("one batch should be yielded");
    assert_eq!((features.dtype, features.device), (DType::F32, Device::Cuda(1)));
    assert_eq!((targets.dtype, targets.device), (DType::F32, Device::Cuda(1)));
}

#[test]
fn test_dataloader_from_dataset_columns_with_shuffle_preserves_row_pairing() {
    let dataset = tensor(
        &[1.0, 10.0, 100.0, 2.0, 20.0, 200.0, 3.0, 30.0, 300.0, 4.0, 40.0, 400.0],
        &[4, 3],
    );
    let loader = DataLoader::from_dataset_columns(dataset, 2, BatchSize::Fixed(2), 42)
        .unwrap()
        .with_shuffle(true)
        .with_seed(123);

    let mut feature_rows = Vec::new();
    let mut target_rows = Vec::new();
    for (features, targets) in batches(&loader, loader.iter_with_epoch(0)) {
        feature_rows.extend(rows(&features));
        target_rows.extend(vals(&targets.values));
    }

    assert_eq!(feature_rows.len(), 4);
    assert_eq!(target_rows.len(), 4);
    for (feat, &target) in feature_rows.iter().zip(target_rows.iter()) {
        let col0 = feat[0];
        assert!(
            (target - col0 * 100.0).abs() < 1e-12,
            "row pairing broken: col0={col0}, target={target}",
        );
    }

    let identity: Vec<f64> = (1..=4).map(|i| i as f64).collect();
    let shuffled_col0: Vec<f64> = feature_rows.iter().map(|r| r[0]).collect();
    assert_ne!(shuffled_col0, identity);
}

#[test]
fn test_dataloader_shuffle_is_seeded_epoch_specific_and_resettable() {
    let features = tensor(&[0.0, 1.0, 2.0, 3.0, 4.0, 5.0], &[6, 1]);
    let targets = tensor(&[10.0, 11.0, 12.0, 13.0, 14.0, 15.0], &[6, 1]);

    let mut loader_a =
        DataLoader::new(features.copied(), targets.copied(), BatchSize::Fixed(2), 42)
            .unwrap()
            .with_shuffle(true)
            .with_seed(7);
    let loader_b = DataLoader::new(features, targets, BatchSize::Fixed(2), 42)
        .unwrap()
        .with_shuffle(true)
        .with_seed(7);

    let epoch_zero_a = feature_order(&loader_a, loader_a.iter_with_epoch(0));
    let epoch_zero_b = feature_order(&loader_b, loader_b.iter_with_epoch(0));
    let epoch_one_a = feature_order(&loader_a, loader_a.iter_with_epoch(1));

    assert_eq!(epoch_zero_a, epoch_zero_b);
    assert_ne!(epoch_zero_a, epoch_one_a);

    let pass = loader_a.iter();
    let first_epoch = feature_order(&loader_a, pass);
    let pass = loader_a.iter();
    let second_epoch = feature_order(&loader_a, pass);
    assert_ne!(first_epoch, second_epoch);

    loader_a.reset();
    let pass = loader_a.iter();
    let reset_epoch = feature_order(&loader_a, pass);
    assert_eq!(first_epoch, reset_epoch);

    let mut visited = first_epoch.clone();
    visited.sort_by(f64::total_cmp);
    assert_eq!(visited, vec![0.0, 1.0, 2.0, 3.0, 4.0, 5.0]);
}

#[test]
fn test_dataloader_returns_prescaled_tensors_unchanged() {
    let features = tensor(&[1.0, 10.0, 3.0, 10.0, 5.0, 10.0], &[3, 2]);
    let targets = tensor(&[100.0, 200.0, 300.0], &[3, 1]);
    let mut feature_scaler = StandardScaler::new();
    let mut target_scaler = MinMaxScaler::new();

    fit_standard(&mut feature_scaler, &features).unwrap();
    fit_minmax(&mut target_scaler, &targets).unwrap();

    let scaled_features_src = standardize(&feature_scaler, &features).unwrap();
    let scaled_targets_src = squeeze(&target_scaler, &targets, false).unwrap();

    let mut loader =
        DataLoader::new(scaled_features_src, scaled_targets_src, BatchSize::All, 42).unwrap();
    let mut pass = loader.iter();
    let (scaled_features, scaled_targets) =
        pass.next(&loader).expect("one batch should be yielded");

    let scaled_features = vals(&scaled_features.values);
    let scaled_targets = vals(&scaled_targets.values);

    assert_close(scaled_features[0], -1.224_744_871_391_589);
    assert_close(scaled_features[1], 0.0);
    assert_close(scaled_features[2], 0.0);
    assert_close(scaled_features[3], 0.0);
    assert_close(scaled_features[4], 1.224_744_871_391_589);
    assert_close(scaled_features[5], 0.0);
    assert_close(scaled_targets[0], 0.0);
    assert_close(scaled_targets[1], 0.5);
    assert_close(scaled_targets[2], 1.0);
}

#[test]
fn test_dataloader_rejects_invalid_configuration() {
    let features = tensor(&[1.0, 2.0, 3.0, 4.0], &[2, 2]);
    let mismatched_targets = tensor(&[1.0, 2.0, 3.0], &[3, 1]);
    let dataset = tensor(&[1.0, 2.0, 3.0, 4.0], &[1, 4]);

    let mismatch_error =
        DataLoader::new(features.copied(), mismatched_targets, BatchSize::Fixed(2), 42)
            .err()
            .expect("mismatched sample counts should be rejected");
    let batch_size_error =
        DataLoader::new(features, tensor(&[1.0, 2.0], &[2, 1]), BatchSize::Fixed(0), 42)
            .err()
            .expect("zero batch size should be rejected");
    let split_error = DataLoader::from_dataset_columns(dataset, 4, BatchSize::All, 42)
        .err()
        .expect("feature_count equal to total column count should be rejected");

    assert!(mismatch_error.to_string().contains("same number of samples"));
    assert!(batch_size_error.to_string().contains("greater than zero"));
    assert!(split_error.to_string().contains("feature_count"));
}

#[test]
fn test_dataloader_large_fixed_batch_size_returns_single_batch() {
    let features = tensor(&[1.0, 2.0, 3.0, 4.0], &[2, 2]);
    let targets = tensor(&[10.0, 20.0], &[2, 1]);
    let mut loader = DataLoader::new(features, targets, BatchSize::Fixed(8), 42).unwrap();

    let pass = loader.iter();
    let all = batches(&loader, pass);

    assert_eq!(loader.num_batches(), 1);
    assert_eq!(all.len(), 1);
    assert_eq!(all[0].0.dims, vec![2, 2]);
}

#[test]
fn batch_sizes_and_counts() {
    assert_eq!(BatchSize::All.resolve(9), 9);
    assert_eq!(BatchSize::Fixed(4).resolve(9), 4);
    assert_eq!(divide_up(9, 4), 3);
    assert_eq!(divide_up(8, 4), 2);
    assert_eq!(divide_up(0, 4), 0);
    assert_eq!(parse_batch_size("all").unwrap(), BatchSize::All);
    assert_eq!(parse_batch_size("64").unwrap(), BatchSize::Fixed(64));
    assert!(parse_batch_size("many").is_err());
    let loader = build_loader(
        tensor(&[1.0, 2.0], &[2, 1]),
        tensor(&[3.0, 4.0], &[2, 1]),
        BatchSize::Fixed(1),
        false,
        9,
    )
    .unwrap();
    assert_eq!(BatchSource::num_batches(&loader), 2);
}

#[test]
fn test_standard_scaler_fit_computes_population_mean_and_safe_std() {
    let data = tensor(&[1.0, 10.0, 3.0, 10.0, 5.0, 10.0], &[3, 2]);
    let mut scaler = StandardScaler::new();

    fit_standard(&mut scaler, &data).unwrap();

    assert!(scaler.is_fitted());
    let (mean, std) = scaler.cloned_stats().unwrap();
    let (mean, std) = (vals(&mean.values), vals(&std.values));

    assert_close(mean[0], 3.0);
    assert_close(mean[1], 10.0);
    assert_close(std[0], (8.0f64 / 3.0).sqrt());
    assert_close(std[1], 1.0);
}

#[test]
fn test_standard_scaler_transform_and_inverse_transform_round_trip() {
    let data = tensor(&[1.0, 10.0, 3.0, 10.0, 5.0, 10.0], &[3, 2]);
    let mut scaler = StandardScaler::new();

    fit_standard(&mut scaler, &data).unwrap();
    let transformed = standardize(&scaler, &data).unwrap();
    let recovered = destandardize(&scaler, &transformed).unwrap();
    let transformed_values = vals(&transformed.values);

    assert_close(transformed_values[0], -1.224_744_871_391_589);
    assert_close(transformed_values[1], 0.0);
    assert_close(transformed_values[2], 0.0);
    assert_close(transformed_values[3], 0.0);
    assert_close(transformed_values[4], 1.224_744_871_391_589);
    assert_close(transformed_values[5], 0.0);

    for (actual, expected) in vals(&recovered.values).iter().zip(vals(&data.values).iter()) {
        assert_close(*actual, *expected);
    }
}

#[test]
fn test_standard_scaler_transforms_new_batches_with_fitted_statistics() {
    let train = tensor(&[1.0, 10.0, 3.0, 10.0, 5.0, 10.0], &[3, 2]);
    let batch = tensor(&[7.0, 10.0, -1.0, 10.0], &[2, 2]);
    let mut scaler = StandardScaler::new();

    fit_standard(&mut scaler, &train).unwrap();
    let transformed = standardize(&scaler, &batch).unwrap();
    let values = vals(&transformed.values);

    assert_eq!(transformed.dims, vec![2, 2]);
    assert_close(values[0], 2.449_489_742_783_178);
    assert_close(values[1], 0.0);
    assert_close(values[2], -2.449_489_742_783_178);
    assert_close(values[3], 0.0);
}

#[test]
fn test_standard_scaler_rejects_unfitted_or_invalid_input_shapes() {
    let vector = tensor(&[1.0, 2.0, 3.0], &[3]);
    let data = tensor(&[1.0, 2.0, 3.0, 4.0], &[2, 2]);
    let scaler = StandardScaler::new();
    let mut fit_scaler = StandardScaler::new();

    let fit_error =
        fit_standard(&mut fit_scaler, &vector).expect_err("1D tensors should be rejected");
    let transform_error =
        standardize(&scaler, &data).expect_err("transform without fit should be rejected");

    assert!(fit_error.to_string().contains("2D tensor"));
    assert!(transform_error.to_string().contains("must be fitted"));
}

#[test]
fn test_standard_scaler_with_negated_columns_matches_refit() {
    let train = tensor(&[1.0, 10.0, 3.0, 14.0, 5.0, 18.0], &[3, 2]);
    let negated_train = tensor(&[1.0, -10.0, 3.0, -14.0, 5.0, -18.0], &[3, 2]);
    let mut base = StandardScaler::new();
    let mut refit = StandardScaler::new();

    fit_standard(&mut base, &train).unwrap();
    fit_standard(&mut refit, &negated_train).unwrap();

    let derived = base.with_negated_columns(&[1]).unwrap();
    let derived_values = vals(&standardize(&derived, &negated_train).unwrap().values);
    let refit_values = vals(&standardize(&refit, &negated_train).unwrap().values);

    for (actual, expected) in derived_values.iter().zip(refit_values.iter()) {
        assert_close(*actual, *expected);
    }
    assert!(base.with_negated_columns(&[2]).is_err());
}

#[test]
fn test_minmax_scaler_default_range_round_trips_and_handles_constant_columns() {
    let data = tensor(&[1.0, 10.0, 3.0, 10.0, 5.0, 10.0], &[3, 2]);
    let mut scaler = MinMaxScaler::new();

    fit_minmax(&mut scaler, &data).unwrap();
    let transformed = squeeze(&scaler, &data, false).unwrap();
    let recovered = squeeze(&scaler, &transformed, true).unwrap();
    let transformed_values = vals(&transformed.values);

    assert!(scaler.is_fitted());
    assert_eq!(scaler.feature_range(), (num(0.0), num(1.0)));
    assert_close(transformed_values[0], 0.0);
    assert_close(transformed_values[1], 0.0);
    assert_close(transformed_values[2], 0.5);
    assert_close(transformed_values[3], 0.0);
    assert_close(transformed_values[4], 1.0);
    assert_close(transformed_values[5], 0.0);

    for (actual, expected) in vals(&recovered.values).iter().zip(vals(&data.values).iter()) {
        assert_close(*actual, *expected);
    }
}

#[test]
fn test_minmax_scaler_supports_custom_feature_range() {
    let train = tensor(&[1.0, 10.0, 5.0, 10.0], &[2, 2]);
    let batch = tensor(&[1.0, 10.0, 3.0, 10.0, 5.0, 10.0], &[3, 2]);
    let mut scaler = MinMaxScaler::with_feature_range(num(-1.0), num(1.0)).unwrap();

    fit_minmax(&mut scaler, &train).unwrap();
    let values = vals(&squeeze(&scaler, &batch, false).unwrap().values);

    assert_eq!(scaler.feature_range(), (num(-1.0), num(1.0)));
    assert_close(values[0], -1.0);
    assert_close(values[1], -1.0);
    assert_close(values[2], 0.0);
    assert_close(values[3], -1.0);
    assert_close(values[4], 1.0);
    assert_close(values[5], -1.0);
}

#[test]
fn test_minmax_scaler_extrapolates_outside_fitted_feature_range() {
    let train = tensor(&[1.0, 5.0], &[2, 1]);
    let batch = tensor(&[0.0, 6.0], &[2, 1]);
    let mut scaler = MinMaxScaler::new();

    fit_minmax(&mut scaler, &train).unwrap();
    let values = vals(&squeeze(&scaler, &batch, false).unwrap().values);

    assert_close(values[0], -0.25);
    assert_close(values[1], 1.25);
}

#[test]
fn test_minmax_scaler_rejects_invalid_range_and_unfitted_or_mismatched_inputs() {
    let invalid_range = MinMaxScaler::with_feature_range(num(1.0), num(1.0))
        .expect_err("equal feature range bounds should be rejected");
    let train = tensor(&[1.0, 2.0, 3.0, 4.0], &[2, 2]);
    let wrong_features = tensor(&[1.0, 2.0, 3.0], &[1, 3]);
    let scaler = MinMaxScaler::new();
    let mut fitted_scaler = MinMaxScaler::new();

    fit_minmax(&mut fitted_scaler, &train).unwrap();

    let unfitted_error =
        squeeze(&scaler, &train, false).expect_err("transform without fit should be rejected");
    let mismatch_error = squeeze(&fitted_scaler, &wrong_features, false)
        .expect_err("feature-count mismatch should be rejected");

    assert!(invalid_range.to_string().contains("feature range"));
    assert!(unfitted_error.to_string().contains("must be fitted"));
    assert!(mismatch_error.to_string().contains("expected 2 features"));
}

#[test]
fn identity_scaling_changes_nothing() {
    let data = tensor(&[1.0, 2.0], &[1, 2]);
    let scaler = IdentityScaler::new();
    assert_eq!(vals(&scaler.transform(&data).values), vec![1.0, 2.0]);
    assert_eq!(vals(&scaler.inverse_transform(&data).values), vec![1.0, 2.0]);
}

#[test]
fn statistics_may_be_given() {
    let scaler =
        StandardScaler::from_stats(tensor(&[1.0, 2.0], &[1, 2]), tensor(&[0.0, 4.0], &[1, 2]))
            .unwrap();
    assert!(scaler.is_fitted());
    assert_eq!(vals(&scaler.cloned_stats().unwrap().1.values), vec![1.0, 4.0]);
    assert!(StandardScaler::from_stats(tensor(&[1.0], &[1, 1]), tensor(&[1.0, 2.0], &[1, 2]))
        .is_err());
    assert!(StandardScaler::new().cloned_stats().is_err());
    assert_eq!(vals(&replace_zero_with_one(&nums(&[0.0, -0.0, 2.0]))), vec![1.0, 1.0, 2.0]);
    let mut whole = tensor(&[1.0], &[1, 1]);
    whole.dtype = DType::I64;
    assert!(validate_data(&whole, "S", "fit").is_err());
}

#[test]
fn real_samples_are_converted_with_expected_shapes() {
    let (features, targets) = samples_to_real_tensors(&[sample()]);

    assert_eq!(features.dims, vec![1, 4]);
    assert_eq!(targets.dims, vec![1, 2]);
    assert_eq!(rows(&features), vec![vec![1.0, 2.0, 3.0, 4.0]]);
    assert_eq!(rows(&targets), vec![vec![5.0, 6.0]]);
}

#[test]
fn complex_bridge_round_trips() {
    let (features, targets) = samples_to_complex_tensors(&[sample()]);
    let packed_features = pack_complex_features(&features).unwrap();
    let packed_targets = pack_complex_features(&targets).unwrap();
    let unpacked_features = unpack_complex_features(&packed_features, 2).unwrap();
    let unpacked_targets = unpack_complex_features(&packed_targets, 1).unwrap();

    assert_eq!(rows(&packed_features), vec![vec![1.0, 3.0, 2.0, 4.0]]);
    assert_eq!(rows(&packed_targets), vec![vec![5.0, -6.0]]);
    assert_eq!(rows(&unpacked_features.real), rows(&features.real));
    assert_eq!(rows(&unpacked_features.imag), rows(&features.imag));
    assert_eq!(rows(&unpacked_targets.real), rows(&targets.real));
    assert_eq!(rows(&unpacked_targets.imag), rows(&targets.imag));

    let (packed, expected) = samples_to_packed_complex_tensors(&[sample()]);
    assert_eq!(rows(&packed), rows(&packed_features));
    assert_eq!(rows(&expected), rows(&packed_targets));
    assert!(unpack_complex_features(&packed_features, 3).is_err());
}

#[test]
fn both_families_encode_their_targets() {
    let real = samples_to_tensors(ModelType::Real, &[sample()], false);
    assert_eq!(rows(&real.targets), vec![vec![5.0, 6.0]]);
    assert_eq!(real.encoding, PredictionEncoding::RealColumns { negate_imag: false });
    let complex = samples_to_tensors(ModelType::Complex, &[sample()], false);
    assert_eq!(rows(&complex.features), vec![vec![1.0, 3.0, 2.0, 4.0]]);
    assert!(matches!(
        complex.encoding,
        PredictionEncoding::PackedComplex { complex_feature_count: 1, .. }
    ));
    let splits = prepare_splits_from_samples(
        &vec![sample(), sample()],
        &vec![sample()],
        &vec![],
        ModelType::Real,
        false,
    );
    assert_eq!(splits.train_features.dims, vec![2, 4]);
    assert_eq!(splits.val_targets.dims, vec![1, 2]);
    assert_eq!(splits.test_features.dims, vec![0, 4]);
}

#[test]
fn scalers_come_from_the_cache_first() {
    assert_eq!(scaler_source(true, 0), ScalerSource::Cached);
    assert_eq!(scaler_source(false, 5), ScalerSource::TrainingSamples);
    assert_eq!(scaler_source(false, 0), ScalerSource::TestSamples);
    assert!(inference_scaler_source(false, 0).is_err());
}

//! Errors, validation, grids, metrics, seeds and naming rules.

use rand::seq::SliceRandom;
use rand::RngExt;
use sparam::base::config::{is_set, is_switched_on, normalize_config_name};
use sparam::base::error::{msg_error, number_error, two_number_error, CoreError, ErrorContext, Piece};
use sparam::base::grid::detect_grid_structure;
use sparam::base::io::temp_file_name;
use sparam::base::math::clamp;
use sparam::base::metrics::{
    classify_multi_threshold, classify_predictions, complex_r2_scores, component_count, r2_score,
    summarize_relative_errors, ComplexR2Scores, Mean, Median,
};
use sparam::base::rng::{
    derive_sub_rng, get_global_seed, get_seeded_rng, mix_seed, reset_for_testing, set_global_seed,
    shuffle_under_seed, LocalGenerator, SeedArgs, SeedState,
};
use sparam::base::s_params::S11S21;
use sparam::base::validation::{
    format_dims, validate_2d_tensor, validate_non_negative_f64, validate_non_negative_range,
    validate_positive_f64, validate_positive_range, validate_positive_usize,
};
use sparam::model::ModelType;
use sparam::scalar::Scalar;
use sparam::sort::{find_in_axis, sort_scalars, unique_sorted};

fn num(value: f64) -> Scalar {
    Scalar::from_bits(value.to_bits())
}

fn val(value: Scalar) -> f64 {
    f64::from_bits(value.bits)
}

fn nums(values: &[f64]) -> Vec<Scalar> {
    values.iter().map(|v| num(*v)).collect()
}

fn vals(values: &[Scalar]) -> Vec<f64> {
    values.iter().map(|v| val(*v)).collect()
}

/// The message with its numbers written out.
fn message(error: &CoreError) -> String {
    let mut text = String::new();
    for piece in error.pieces() {
        match piece {
            Piece::Text(t) => text.push_str(&t),
            Piece::Number(n) => text.push_str(&format!("{}", val(n))),
        }
    }
    text
}

/// Errors of |predicted - true| / |true| in percent, and their statistics.
fn relative_errors(
    true_real: &[f64],
    true_imag: &[f64],
    pred_real: &[f64],
    pred_imag: &[f64],
) -> Result<Vec<Scalar>, CoreError> {
    let n = component_count(true_real.len(), true_imag.len(), pred_real.len(), pred_imag.len())?;
    Ok((0..n)
        .map(|i| {
            let off = (pred_real[i] - true_real[i]).hypot(pred_imag[i] - true_imag[i]);
            num(off / true_real[i].hypot(true_imag[i]) * 100.0)
        })
        .collect())
}

fn mean_of(mean: Mean, errors: &[Scalar]) -> f64 {
    match mean {
        Mean::Known(value) => val(value),
        Mean::Arithmetic => vals(errors).iter().sum::<f64>() / errors.len() as f64,
    }
}

fn median_of(median: Median) -> f64 {
    match median {
        Median::Known(value) => val(value),
        Median::Halfway(low, high) => (val(low) + val(high)) / 2.0,
    }
}

#[test]
fn normalizes_mixed_input() {
    assert_eq!(normalize_config_name("  Cosine-Annealing "), "cosine_annealing");
    assert_eq!(normalize_config_name("AdamW"), "adamw");
    assert_eq!(normalize_config_name("smooth-l1"), "smooth_l1");
}

#[test]
fn switches_need_a_value() {
    assert!(!is_set(None));
    assert!(!is_set(Some("")));
    assert!(is_set(Some("0")));
    assert!(!is_switched_on(None));
    assert!(!is_switched_on(Some("0")));
    assert!(is_switched_on(Some("1")));
    assert!(is_switched_on(Some("TRUE")));
}

#[test]
fn msg_error_stores_message() {
    let err = msg_error("something went wrong");
    assert!(err.to_string().contains("something went wrong"));
    assert!(matches!(err, CoreError::Msg(_)));
}

#[test]
fn context_wraps_io_error() {
    let io_err: std::result::Result<(), std::io::Error> =
        Err(std::io::Error::new(std::io::ErrorKind::NotFound, "file missing"));
    let wrapped = io_err.context("save checkpoint").unwrap_err();
    let msg = wrapped.to_string();
    assert!(msg.contains("save checkpoint"), "got: {msg}");
    assert!(msg.contains("file missing"), "got: {msg}");
    assert_eq!(msg, "save checkpoint: file missing");
    assert!(matches!(wrapped, CoreError::Msg(_)));
}

#[test]
fn context_preserves_ok_values() {
    let ok: std::result::Result<i32, String> = Ok(42);
    assert_eq!(ok.context("irrelevant").unwrap(), 42);
}

#[test]
fn each_kind_of_error_has_its_prefix() {
    assert_eq!(CoreError::Msg("m".to_string()).to_string(), "m");
    assert_eq!(CoreError::Io("gone".to_string()).to_string(), "IO error: gone");
    assert_eq!(CoreError::Json("eof".to_string()).to_string(), "JSON error: eof");
    let quoted = number_error("got ".to_string(), num(1.5));
    assert_eq!(message(&quoted), "got 1.5");
    assert_eq!(quoted.to_string(), "got 0x3ff8000000000000");
    let both = two_number_error("from ".to_string(), num(1.0), " to ".to_string().as_str(), num(2.0), "!");
    assert_eq!(message(&both), "from 1 to 2!");
}

#[test]
fn detects_2x3_grid() {
    let eps_prime = nums(&[1.0, 1.0, 1.0, 2.0, 2.0, 2.0]);
    let eps_double = nums(&[0.1, 0.2, 0.3, 0.1, 0.2, 0.3]);
    let grid = detect_grid_structure(&eps_prime, &eps_double).unwrap();
    assert_eq!(grid.dims, (2, 3));
    assert_eq!(vals(&grid.eps_prime_values), vec![1.0, 2.0]);
    assert_eq!(vals(&grid.eps_double_prime_values), vec![0.1, 0.2, 0.3]);
}

#[test]
fn rejects_non_grid() {
    let eps_prime = nums(&[1.0, 2.0, 3.0]);
    let eps_double = nums(&[0.1, 0.2, 0.3]);
    assert!(detect_grid_structure(&eps_prime, &eps_double).is_none());
}

#[test]
fn rejects_empty() {
    assert!(detect_grid_structure(&[], &[]).is_none());
}

#[test]
fn rejects_nan() {
    assert!(detect_grid_structure(&[num(f64::NAN)], &[num(1.0)]).is_none());
}

#[test]
fn a_grid_may_come_in_any_order() {
    let eps_prime = nums(&[2.0, 1.0, 1.0, 2.0]);
    let eps_double = nums(&[0.5, 0.0, 0.5, 0.0]);
    assert_eq!(detect_grid_structure(&eps_prime, &eps_double).unwrap().dims, (2, 2));
    let repeated = nums(&[0.5, 0.0, 0.5, 0.5]);
    assert!(detect_grid_structure(&eps_prime, &repeated).is_none());
}

#[test]
fn clamp_within() {
    assert_eq!(val(clamp(num(5.0), num(0.0), num(10.0))), 5.0);
    assert_eq!(val(clamp(num(-1.0), num(0.0), num(10.0))), 0.0);
    assert_eq!(val(clamp(num(15.0), num(0.0), num(10.0))), 10.0);
}

#[test]
fn test_ok_classification() {
    let errors = nums(&[0.5, 1.5, 5.0, 15.0, f64::INFINITY, f64::NAN]);
    let result = classify_predictions(&errors, num(10.0));

    assert_eq!(result.ok_mask, vec![true, true, true, false, false, false]);
    assert_eq!(result.ok_count, 3);
    let ok_percent = result.ok_count as f64 / errors.len() as f64 * 100.0;
    assert!((ok_percent - 50.0).abs() < 1e-12);
    assert!((val(result.threshold) - 10.0).abs() < 1e-12);
}

#[test]
fn test_multi_threshold() {
    let errors = nums(&[0.5, 1.5, 5.0, 10.0]);
    let results = classify_multi_threshold(&errors, &nums(&[1.0, 5.0, 10.0]));

    assert_eq!(results.len(), 3);
    assert_eq!(results[0].ok_count, 1);
    assert_eq!(results[1].ok_count, 3);
    assert_eq!(results[2].ok_count, 4);
}

#[test]
fn test_multi_threshold_empty() {
    let results = classify_multi_threshold(&nums(&[0.5, 1.5]), &[]);
    assert!(results.is_empty());

    let results = classify_multi_threshold(&[], &nums(&[1.0, 5.0]));
    assert_eq!(results.len(), 2);
    assert_eq!(results[0].ok_count, 0);
    assert!(results[0].ok_mask.is_empty());
}

#[test]
fn test_relative_error_computation() {
    let errors = relative_errors(&[2.5], &[-0.15], &[2.525], &[-0.152]).unwrap();
    let metrics = summarize_relative_errors(errors);

    assert_eq!(metrics.n_samples, 1);
    assert!((val(metrics.errors[0]) - 1.0013940064519187).abs() < 1e-9);
    assert!((mean_of(metrics.mean_error, &metrics.errors) - val(metrics.errors[0])).abs() < 1e-12);
    assert!((median_of(metrics.median_error) - val(metrics.errors[0])).abs() < 1e-12);
}

#[test]
fn test_relative_error_aggregates_batch_statistics() {
    let errors =
        relative_errors(&[2.0, 3.0], &[-1.0, 4.0], &[2.0, 6.0], &[-1.0, 8.0]).unwrap();
    let metrics = summarize_relative_errors(errors);

    assert_eq!(metrics.n_samples, 2);
    assert_eq!(metrics.errors.len(), 2);
    assert!((val(metrics.errors[0]) - 0.0).abs() < 1e-12);
    assert!((val(metrics.errors[1]) - 100.0).abs() < 1e-12);
    assert!((mean_of(metrics.mean_error, &metrics.errors) - 50.0).abs() < 1e-12);
    assert!((median_of(metrics.median_error) - 50.0).abs() < 1e-12);
    assert!((val(metrics.max_error) - 100.0).abs() < 1e-12);
    assert!((val(metrics.min_error) - 0.0).abs() < 1e-12);
}

#[test]
fn test_relative_error_components_reject_length_mismatch() {
    let error = relative_errors(&[1.0], &[0.0], &[1.0, 2.0], &[0.0]).unwrap_err();
    assert!(error.to_string().contains("Length mismatch for relative error components"));
}

#[test]
fn an_odd_number_of_errors_has_a_middle() {
    let metrics = summarize_relative_errors(nums(&[3.0, 1.0, 2.0]));
    assert_eq!(metrics.median_error, Median::Known(num(2.0)));
    assert_eq!(vals(&metrics.errors), vec![3.0, 1.0, 2.0]);
    let nothing = summarize_relative_errors(vec![]);
    assert_eq!(nothing.n_samples, 0);
}

fn score_parts(y_true: &[f64], y_pred: &[f64]) -> (Scalar, Scalar) {
    let mean = y_true.iter().sum::<f64>() / y_true.len() as f64;
    let total: f64 = y_true.iter().map(|value| (value - mean).powi(2)).sum();
    let residual: f64 = y_true.iter().zip(y_pred).map(|(t, p)| (t - p).powi(2)).sum();
    (num(total), num(1.0 - residual / total))
}

fn scored(y_true: &[f64], y_pred: &[f64]) -> f64 {
    let (total, score) = score_parts(y_true, y_pred);
    val(r2_score(y_true.len(), y_pred.len(), total, score))
}

#[test]
fn test_r2_score_perfect_prediction() {
    let y_true = vec![1.0, 2.0, 3.0, 4.0];
    let y_pred = vec![1.0, 2.0, 3.0, 4.0];
    assert!((scored(&y_true, &y_pred) - 1.0).abs() < 1e-10);
}

#[test]
fn test_r2_score_mean_prediction() {
    let y_true = vec![1.0, 2.0, 3.0, 4.0, 5.0];
    let y_pred = vec![3.0, 3.0, 3.0, 3.0, 3.0];
    assert!(scored(&y_true, &y_pred).abs() < 1e-10);
}

#[test]
fn test_r2_score_negative() {
    let y_true = vec![1.0, 2.0, 3.0];
    let y_pred = vec![3.0, 2.0, 1.0];
    assert!(scored(&y_true, &y_pred) < 0.0);
}

#[test]
fn test_complex_r2_scores() {
    let true_real = vec![1.0, 2.0, 3.0];
    let true_imag = vec![-0.1, -0.2, -0.3];
    let pred_real = vec![1.0, 2.0, 3.0];
    let pred_imag = vec![-0.15, -0.2, -0.25];
    let scores = complex_r2_scores(
        true_real.len(),
        true_imag.len(),
        pred_real.len(),
        pred_imag.len(),
        score_parts(&true_real, &pred_real),
        score_parts(&true_imag, &pred_imag),
    );
    assert!((val(scores.r2_real) - 1.0).abs() < 1e-10);
    assert!((val(scores.r2_imag) - 0.75).abs() < 1e-10);
    assert_eq!(val(scores.r2_real), scored(&true_real, &pred_real));
}

#[test]
fn scores_are_at_most_one() {
    let truth = vec![1.0, 2.0, 4.0, -3.0];
    for prediction in [truth.clone(), vec![0.0; 4], vec![1e200, -1e200, 5.0, 0.1]] {
        let score = scored(&truth, &prediction);
        assert!(score.is_nan() || score <= 1.0);
    }
    assert_eq!(scored(&truth, &truth), 1.0);
    assert!(scored(&[2.0, 2.0], &[2.0, 2.0]).is_nan());
}

#[test]
fn scores_need_matching_lengths() {
    assert_eq!(r2_score(3, 3, num(2.0), num(0.5)), num(0.5));
    assert!(r2_score(3, 2, num(2.0), num(0.5)).is_nan());
    assert!(r2_score(0, 0, num(2.0), num(0.5)).is_nan());
    assert!(r2_score(3, 3, num(0.0), num(f64::NEG_INFINITY)).is_nan());
    let (re, im) = ((num(2.0), num(0.5)), (num(1.0), num(-3.0)));
    assert_eq!(
        complex_r2_scores(2, 2, 2, 2, re, im),
        ComplexR2Scores { r2_real: num(0.5), r2_imag: num(-3.0) }
    );
    let short = complex_r2_scores(2, 2, 2, 1, re, im);
    assert!(short.r2_real.is_nan() && short.r2_imag.is_nan());
    let flat = complex_r2_scores(2, 2, 2, 2, (num(0.0), num(0.5)), im);
    assert!(flat.r2_real.is_nan());
    assert_eq!(flat.r2_imag, num(-3.0));
}

#[test]
fn reproducibility() {
    let mut state = SeedState::initial();
    let mut local = LocalGenerator::new(&state);
    reset_for_testing(&mut state, &mut local, 12345);
    let mut rng1 = get_seeded_rng(&state);
    let seq1: Vec<u32> = (0..10).map(|_| rng1.random()).collect();

    reset_for_testing(&mut state, &mut local, 12345);
    let mut rng2 = get_seeded_rng(&state);
    let seq2: Vec<u32> = (0..10).map(|_| rng2.random()).collect();

    assert_eq!(seq1, seq2);
}

#[test]
fn data_shuffling_reproducibility() {
    let mut state = SeedState::initial();
    let mut local = LocalGenerator::new(&state);
    reset_for_testing(&mut state, &mut local, 42);
    let mut rng1 = get_seeded_rng(&state);
    let mut data1 = vec![1, 2, 3, 4, 5, 6, 7, 8, 9, 10];
    data1.shuffle(&mut rng1);

    reset_for_testing(&mut state, &mut local, 42);
    let mut rng2 = get_seeded_rng(&state);
    let mut data2 = vec![1, 2, 3, 4, 5, 6, 7, 8, 9, 10];
    data2.shuffle(&mut rng2);

    assert_eq!(data1, data2);
    assert_eq!(shuffle_under_seed(&state, vec![1, 2, 3, 4, 5, 6, 7, 8, 9, 10]), data1);
    assert_ne!(data1, vec![1, 2, 3, 4, 5, 6, 7, 8, 9, 10]);
}

#[test]
fn sub_rng_parallel_reproducibility() {
    let mut state = SeedState::initial();
    let mut local = LocalGenerator::new(&state);
    reset_for_testing(&mut state, &mut local, 999);
    let mut rng_0a = derive_sub_rng(&state, 0);
    let mut rng_1a = derive_sub_rng(&state, 1);
    let val_0a: u32 = rng_0a.random();
    let val_1a: u32 = rng_1a.random();

    reset_for_testing(&mut state, &mut local, 999);
    let mut rng_0b = derive_sub_rng(&state, 0);
    let mut rng_1b = derive_sub_rng(&state, 1);
    let val_0b: u32 = rng_0b.random();
    let val_1b: u32 = rng_1b.random();

    assert_eq!(val_0a, val_0b);
    assert_eq!(val_1a, val_1b);
    assert_ne!(val_0a, val_1a);
}

#[test]
fn streams_differ_and_stream_zero_is_the_seed() {
    assert_eq!(mix_seed(7, 0), 7);
    assert_eq!(mix_seed(7, 1), 0x9E37_79B9_7F4A_7C1C);
    assert_ne!(mix_seed(7, 1), mix_seed(7, 2));
    assert_eq!(SeedArgs::resolve(None).seed, 42);
    assert_eq!(SeedArgs::resolve(Some(3)).seed, 3);
}

#[test]
fn workers_start_over_after_seeding() {
    let mut state = SeedState::initial();
    assert_eq!(get_global_seed(&state), 42);
    let mut first = LocalGenerator::new(&state);
    let mut second = LocalGenerator::new(&state);
    let drawn: u32 = first.rng.random();
    let _: u32 = first.rng.random();

    first.refresh(&state);
    let within: u32 = first.rng.random();
    assert_ne!(drawn, within);

    set_global_seed(&mut state, 5);
    assert_eq!(state.generation, 1);
    first.refresh(&state);
    second.refresh(&state);
    let a: u32 = first.rng.random();
    let b: u32 = second.rng.random();
    assert_eq!(a, b);
}

#[test]
fn positive_f64_accepts_valid() {
    assert!(validate_positive_f64("x", num(1.0)).is_ok());
    assert!(validate_positive_f64("x", num(0.001)).is_ok());
}

#[test]
fn positive_f64_rejects_zero() {
    assert!(validate_positive_f64("x", num(0.0)).is_err());
    assert!(validate_positive_f64("x", num(-0.0)).is_err());
}

#[test]
fn positive_f64_rejects_negative() {
    assert!(validate_positive_f64("x", num(-1.0)).is_err());
}

#[test]
fn positive_f64_rejects_nan_inf() {
    assert!(validate_positive_f64("x", num(f64::NAN)).is_err());
    assert!(validate_positive_f64("x", num(f64::INFINITY)).is_err());
}

#[test]
fn non_negative_f64_accepts_zero() {
    assert!(validate_non_negative_f64("x", num(0.0)).is_ok());
}

#[test]
fn non_negative_f64_rejects_negative() {
    assert!(validate_non_negative_f64("x", num(-0.001)).is_err());
}

#[test]
fn positive_range_accepts_valid() {
    assert!(validate_positive_range("eps_prime", (num(1.0), num(2.0))).is_ok());
}

#[test]
fn positive_range_rejects_reversed() {
    assert!(validate_positive_range("eps_prime", (num(2.0), num(1.0))).is_err());
}

#[test]
fn non_negative_range_accepts_zero_lower() {
    assert!(validate_non_negative_range("eps_double_prime", (num(0.0), num(2.0))).is_ok());
}

#[test]
fn positive_usize_rejects_zero() {
    assert!(validate_positive_usize("n", 0).is_err());
    assert!(matches!(
        validate_positive_usize("n", 0),
        Err(CoreError::Msg(text)) if text == "n must be > 0, got 0"
    ));
}

#[test]
fn positive_usize_accepts_one() {
    assert!(validate_positive_usize("n", 1).is_ok());
}

#[test]
fn validate_2d_rejects_1d() {
    assert!(validate_2d_tensor("t", &[5]).is_err());
}

#[test]
fn validate_2d_accepts_valid() {
    let (r, c) = validate_2d_tensor("t", &[3, 4]).unwrap();
    assert_eq!((r, c), (3, 4));
}

#[test]
fn shapes_in_messages() {
    assert_eq!(format_dims(&[]), "[]");
    assert_eq!(format_dims(&[2, 3]), "[2, 3]");
    assert_eq!(
        validate_2d_tensor("t", &[5]).unwrap_err().to_string(),
        "t must be 2-D, got shape [5]"
    );
    assert_eq!(
        validate_2d_tensor("t", &[0, 4]).unwrap_err().to_string(),
        "t must have non-empty dimensions, got shape [0, 4]"
    );
}

#[test]
fn scalars_order_like_doubles() {
    let samples = [
        f64::NEG_INFINITY, -2.5, -1.0, -0.0, 0.0, 1e-300, 0.5, 1.0, 3.0, f64::INFINITY, f64::NAN,
    ];
    for a in samples {
        for b in samples {
            assert_eq!(num(a).less_than(num(b)), a < b, "{a} < {b}");
            assert_eq!(num(a).at_most(num(b)), a <= b, "{a} <= {b}");
            assert_eq!(
                num(a).precedes(num(b)),
                a.total_cmp(&b) == std::cmp::Ordering::Less,
                "{a} before {b}"
            );
        }
        assert_eq!(num(a).negated().bits, (-a).to_bits());
        assert_eq!(num(a).is_nan(), a.is_nan());
        assert_eq!(num(a).is_finite(), a.is_finite());
        assert_eq!(num(a).negated().negated(), num(a));
    }
    assert_eq!(val(Scalar::zero()), 0.0);
    assert_eq!(val(Scalar::one()), 1.0);
}

#[test]
fn sorting_reorders_and_axes_are_searched() {
    let values = nums(&[3.0, -1.0, 2.0, -1.0]);
    assert_eq!(vals(&sort_scalars(&values)), vec![-1.0, -1.0, 2.0, 3.0]);
    let axis = unique_sorted(&values);
    assert_eq!(vals(&axis), vec![-1.0, 2.0, 3.0]);
    assert_eq!(find_in_axis(&axis, num(2.0)), Some(1));
    assert_eq!(find_in_axis(&axis, num(2.5)), None);
}

#[test]
fn rows_of_s_parameters() {
    let s = S11S21::new(num(1.0), num(2.0), num(3.0), num(4.0));
    assert_eq!(vals(&s.as_real_row()), vec![1.0, 2.0, 3.0, 4.0]);
    assert_eq!(vals(&s.as_complex_row()), vec![1.0, 3.0, 2.0, 4.0]);
}

#[test]
fn temporary_files_carry_process_and_count() {
    assert_eq!(temp_file_name(Some("a.json"), 12, 3), ".a.json.tmp-12-3");
    assert_eq!(temp_file_name(None, 1, 0), ".atomic-write.tmp-1-0");
}

#[test]
fn model_types_by_name() {
    assert_eq!(ModelType::from_name("real").unwrap(), ModelType::Real);
    assert_eq!(ModelType::from_name("complex").unwrap(), ModelType::Complex);
    assert!(ModelType::from_name("quaternion").is_err());
    assert_eq!(ModelType::Complex.as_str(), "complex");
}

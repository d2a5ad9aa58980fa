//! Evaluation of models, stacked predictions, maps, diagnostics and benchmarks.

use sparam::base::error::{CoreError, Piece};
use sparam::base::metrics::{classify_multi_threshold, ComplexR2Scores, Median};
use sparam::base::s_params::S11S21;
use sparam::data::csv_table::TableUse;
use sparam::data::complex_tensor::ComplexTensor;
use sparam::data::generation::{read_samples, DataGenerationConfig, GeneratedDataset, PermittivitySample};
use sparam::data::tensor::{DType, Device, Tensor};
use sparam::data::tensor_bridges::{samples_to_tensors, PredictionEncoding};
use sparam::model::ModelType;
use sparam::scalar::Scalar;
use sparam::workflows::benchmark::{
    format_markdown, format_text, report_target, select_suites, suite_cases, suite_under_title,
    BenchEntry, BenchmarkReport, ReportTarget, Suite, SuiteResult,
};
use sparam::workflows::config::{
    CheckpointSource, ComplexNorm, ModelConfig, StackedInferenceConfig, StackedTrainConfig,
    TrainConfig, TrainMetricsSummary,
};
use sparam::workflows::data_prep::ScalerSource;
use sparam::workflows::ensemble::{
    build_s_measured, join_chunks, metrics_from_relative_error, per_element_median,
    stacked_summary,
};
use sparam::workflows::error_report::{
    absolute_line, lossy_values, points_in_region, relative_line, report_absolute_errors,
    report_relative_errors, report_stability_results, Estimator, StabilityTexts, TallyTexts,
};
use sparam::workflows::evaluate::{
    check_nrw_grid, classify_evaluation, describe_source, detect_norm, evaluation_context,
    evaluation_result, find_threshold_percent, linspace_plan, loss_factors, nrw_grid, nrw_label,
    nrw_line, plan_evaluation, plan_nrw_evaluation, spread_of, AxisPlan, ErrorFigures,
    EvaluateConfig, NrwEvaluateConfig, NrwTexts, Spread, ThresholdShares,
};
use sparam::workflows::evaluation::{
    concat_tensors, evaluate_from_complex_predictions, extract_prediction_vectors, find_threshold,
    generate_evaluation_plots, partition_indices, summarize_prediction_vectors,
};
use sparam::workflows::infer::{
    all_members, inference_input, nrw_permittivity, permittivity_from_output,
    permittivity_from_stack, user_sample,
};
use sparam::workflows::losses::{
    is_turned_for_physics, needs_unscaled_targets, packed_loss, permittivity_for_physics,
    LossContext, LossKernel, MlpLoss,
};
use sparam::workflows::nrw_diagnostics::{
    analyze_thresholds, build_report, diagnostics_samples, find_axis_index,
    format_nrw_diagnostics_summary, reorder_mask_for_grid, validate_config, DiagnosticsFigures,
    DiagnosticsTexts, NrwDiagnosticsConfig,
};
use sparam::workflows::stacked_metrics::{
    plan_stacked_metrics, refinement_interval, refinement_text, should_log, MetricsStep,
};
use sparam::workflows::stacked_training::{
    augmented_training, overlay_config, plan_stacked_training, stacked_result, StackStep,
    TrainRunResult,
};
use sparam::workflows::train::{
    test_rows, train_metrics, ErrorAverages, MetricTexts, TrainingOutcome,
};

fn num(value: f64) -> Scalar {
    Scalar::from_bits(value.to_bits())
}

fn val(value: Scalar) -> f64 {
    f64::from_bits(value.bits)
}

fn nums(values: &[f64]) -> Vec<Scalar> {
    values.iter().map(|v| num(*v)).collect()
}

fn vals(values: &[Scalar]) -> Vec<f64> {
    values.iter().map(|v| val(*v)).collect()
}

fn message(error: &CoreError) -> String {
    let mut text = String::new();
    for piece in error.pieces() {
        match piece {
            Piece::Text(t) => text.push_str(&t),
            Piece::Number(n) => text.push_str(&format!("{}", val(n))),
        }
    }
    text
}

fn tensor(values: &[f64], dims: &[usize]) -> Tensor {
    Tensor { dims: dims.to_vec(), values: nums(values), dtype: DType::F64, device: Device::Cpu }
}

fn sample(eps_prime: f64, eps_double_prime: f64, is_dense_patch: bool) -> PermittivitySample {
    PermittivitySample {
        s11_real: num(eps_prime * 10.0 + eps_double_prime),
        s11_imag: num(2.0),
        s21_real: num(3.0),
        s21_imag: num(4.0),
        eps_prime: num(eps_prime),
        eps_double_prime: num(eps_double_prime),
        is_dense_patch,
    }
}

fn real_model() -> ModelConfig {
    ModelConfig::real_model(8, Ok("gelu".to_string()), num(0.0), "none".to_string()).unwrap()
}

fn base_config(seed: u64, shuffle_seed: Option<u64>) -> TrainConfig {
    TrainConfig {
        train_samples: vec![],
        val_samples: vec![],
        test_samples: vec![],
        checkpoint_path: None,
        model: real_model(),
        optimizer: "adamw".to_string(),
        lr: num(1e-2),
        weight_decay: num(1e-4),
        batch_size: "16".to_string(),
        max_epochs: 3,
        patience: 100,
        warmup_epochs: 0,
        scheduler: "none".to_string(),
        loss: "mse".to_string(),
        checkpoint: None,
        seed,
        log_progress: false,
        shuffle_seed,
        grad_clip_norm: None,
        input_noise_std: None,
        cosine_eta_min: None,
        plateau_factor: None,
        plateau_patience: None,
        plateau_min_lr: None,
        sgd_momentum: None,
        sgd_nesterov: None,
        rmsprop_momentum: None,
        rmsprop_alpha: None,
        pi_mape_beta: None,
        physics_lambda: None,
    }
}

fn metrics() -> TrainMetricsSummary {
    TrainMetricsSummary {
        ok_at_1pct: num(1.0),
        ok_at_10pct: num(2.0),
        mean_error: num(3.0),
        max_error: num(4.0),
        min_error: num(5.0),
        median_error: num(6.0),
        r2_real: num(7.0),
        r2_imag: num(8.0),
        best_epoch: 1,
        final_epoch: 2,
        stopped_early: false,
        training_time_secs: num(9.0),
    }
}

#[test]
fn a_model_has_the_normalization_that_its_weights_have() {
    let complex =
        || ModelConfig::complex(8, Ok("crelu".to_string()), num(0.0)).unwrap();
    let bare = vec!["model.fc1.weight_re".to_string()];
    let normed = vec!["model.fc1.weight_re".to_string(), "model.norm.weight".to_string()];
    assert!(matches!(
        detect_norm(complex(), Some(&bare)),
        ModelConfig::Complex { norm: ComplexNorm::Absent, .. }
    ));
    assert!(matches!(
        detect_norm(complex(), Some(&normed)),
        ModelConfig::Complex { norm: ComplexNorm::LayerNorm, .. }
    ));
    assert!(matches!(
        detect_norm(complex(), None),
        ModelConfig::Complex { norm: ComplexNorm::LayerNorm, .. }
    ));
    assert!(matches!(detect_norm(real_model(), Some(&normed)), ModelConfig::Real { .. }));
    assert!(complex().is_complex());
    assert_eq!(complex().model_type(), ModelType::Complex);
    assert_eq!(complex().hidden_size(), 8);
}

#[test]
fn evaluations_are_planned() {
    let mut config = EvaluateConfig {
        model: CheckpointSource::Bytes(vec![1, 2, 3]),
        model_config: real_model(),
        parameter_count: 58,
        test_samples: vec![sample(1.0, 0.0, false)],
        scaler_samples: vec![],
        thresholds: (num(1.0), num(10.0)),
        generate_plots: true,
        quiet: false,
        stack: StackedInferenceConfig::default(),
    };
    let plan = plan_evaluation(&config, &config.model_config, false);
    assert_eq!(plan.scalers, ScalerSource::TestSamples);
    assert!(!plan.stacked);
    assert_eq!(plan.members, 1);
    assert_eq!(plan.lines, vec!["Model: Real MLP (4-8-2) (58 params)", "Test samples: 1"]);
    assert!(plan.warning.is_some());
    config.stack.refine_steps = 20;
    config.stack.extra_members = vec![vec![], vec![]];
    let plan = plan_evaluation(&config, &config.model_config, true);
    assert_eq!(plan.scalers, ScalerSource::Cached);
    assert_eq!(
        plan.stack_line.unwrap(),
        "stacked pipeline active: 3 members, 20 refine steps"
    );
    assert_eq!(describe_source(&config.model), "<db blob, 3 bytes>");
    assert_eq!(evaluation_context(&config.model, None), "eval:blob-3b");
    let file = CheckpointSource::Path("out/m.safetensors".to_string());
    assert_eq!(describe_source(&file), "out/m.safetensors");
    assert_eq!(evaluation_context(&file, Some("m.safetensors")), "eval:m.safetensors");
}

#[test]
fn evaluation_results_hold_shares_and_maps() {
    let samples = vec![
        sample(1.0, 0.0, false),
        sample(1.0, 1.0, false),
        sample(2.0, 0.0, false),
        sample(2.0, 1.0, false),
        sample(5.0, 5.0, true),
    ];
    let errors = nums(&[0.5, 5.0, 20.0, 0.25, 0.1]);
    let thresholds = (num(1.0), num(10.0));
    let classifications = classify_evaluation(&errors, thresholds);
    assert_eq!(classifications[0].ok_count, 3);
    let shares = nums(&[60.0, 80.0]);
    let distances = |standing: f64| nums(&[(1.0 - standing).abs(), (10.0 - standing).abs()]);
    assert_eq!(val(find_threshold_percent(&distances(1.0), &shares)), 60.0);
    assert_eq!(val(find_threshold_percent(&distances(10.0), &shares)), 80.0);
    assert_eq!(val(find_threshold_percent(&distances(5.0), &shares)), 0.0);
    assert_eq!(find_threshold(&nums(&[0.01, 0.001])), Some(1));

    let figures = ErrorFigures {
        mean_error: num(5.17),
        max_error: num(20.0),
        min_error: num(0.1),
        std_error: num(7.0),
    };
    let scores = ComplexR2Scores { r2_real: num(0.9), r2_imag: num(0.8) };
    let result = evaluation_result(
        "m".to_string(),
        &errors,
        &classifications,
        &ThresholdShares {
            from_one: distances(1.0),
            from_ten: distances(10.0),
            percents: shares,
        },
        &figures,
        &scores,
        thresholds,
        &samples,
        true,
    );
    assert_eq!(result.output.test_samples, 5);
    assert_eq!(val(result.output.metrics.ok_at_1pct), 60.0);
    assert_eq!(val(result.output.metrics.ok_at_10pct), 80.0);
    assert_eq!(result.classifications[1].ok_count, 4);
    let charts = result.charts.unwrap();
    let bulk = charts.bulk.unwrap();
    assert_eq!((bulk.nx, bulk.ny), (2, 2));
    assert_eq!(vals(&bulk.eps_prime), vec![1.0, 2.0]);
    let cells: Vec<Vec<f64>> = bulk.error_grid.iter().map(|row| vals(row)).collect();
    assert_eq!(cells, vec![vec![0.5, 20.0], vec![5.0, 0.25]]);
    assert_eq!(bulk.classifications[0].grid_mask, vec![vec![true, false], vec![false, true]]);
    assert_eq!(bulk.classifications[0].total, 4);
    let patch = charts.patch.unwrap();
    assert_eq!((patch.nx, patch.ny), (1, 1));
    assert!(charts.summaries.is_none());
    assert_eq!(partition_indices(&samples, true), vec![4]);
}

#[test]
fn without_a_grid_there_are_summaries() {
    let samples = vec![sample(1.0, 0.0, false), sample(2.0, 1.0, false)];
    let errors = nums(&[0.5, 5.0]);
    let classifications = classify_multi_threshold(&errors, &nums(&[1.0]));
    let charts = generate_evaluation_plots(&errors, &classifications, &samples);
    assert!(charts.bulk.is_none() && charts.patch.is_none());
    let summaries = charts.summaries.unwrap();
    assert_eq!((summaries[0].ok_count, summaries[0].total), (1, 2));
}

#[test]
fn predictions_are_read_in_the_encoding_of_the_targets() {
    let targets = tensor(&[5.0, 6.0, 7.0, 8.0], &[2, 2]);
    let predictions = tensor(&[5.5, 6.5, 7.5, 8.5], &[2, 2]);
    let vectors = extract_prediction_vectors(
        &predictions,
        &targets,
        PredictionEncoding::RealColumns { negate_imag: true },
    )
    .unwrap();
    assert_eq!(vals(&vectors.true_real), vec![5.0, 7.0]);
    assert_eq!(vals(&vectors.true_imag), vec![-6.0, -8.0]);
    assert_eq!(vals(&vectors.pred_imag), vec![-6.5, -8.5]);

    let complex = samples_to_tensors(ModelType::Complex, &[sample(5.0, 6.0, false)], false);
    let exact = ComplexTensor::new(tensor(&[5.0], &[1, 1]), tensor(&[-6.0], &[1, 1])).unwrap();
    let vectors =
        evaluate_from_complex_predictions(&exact, &complex.targets, complex.encoding).unwrap();
    assert_eq!(vectors.true_real, vectors.pred_real);
    assert_eq!(vectors.true_imag, vectors.pred_imag);
    assert!(extract_prediction_vectors(
        &tensor(&[1.0], &[1, 1]),
        &targets,
        PredictionEncoding::RealColumns { negate_imag: false },
    )
    .is_err());

    let joined = concat_tensors(&vec![tensor(&[1.0], &[1, 1]), tensor(&[2.0], &[1, 1])], "x").unwrap();
    assert_eq!(vals(&joined.values), vec![1.0, 2.0]);
    assert!(concat_tensors(&vec![], "predictions").unwrap_err().to_string().contains("predictions"));
}

#[test]
fn training_reports_its_evaluation() {
    let vectors = extract_prediction_vectors(
        &tensor(&[5.0, 6.0], &[1, 2]),
        &tensor(&[5.0, 6.0], &[1, 2]),
        PredictionEncoding::RealColumns { negate_imag: false },
    )
    .unwrap();
    let evaluation = summarize_prediction_vectors(
        vectors,
        nums(&[0.5]),
        ComplexR2Scores { r2_real: num(1.0), r2_imag: num(0.5) },
    );
    assert_eq!(evaluation.ok_at_1.ok_count, 1);
    let rows = test_rows(
        &evaluation,
        &MetricTexts {
            ok_at_1_percent: "100.00".to_string(),
            ok_at_10_percent: "100.00".to_string(),
            mean_error: "0.5000".to_string(),
            max_error: "0.5000".to_string(),
            r2_real: "1.000000".to_string(),
            r2_imag: "0.500000".to_string(),
        },
    );
    assert_eq!(rows[0].value, "100.00% (1/1)");
    assert_eq!(rows[2].value, "0.5000%");
    let summary = train_metrics(
        &evaluation,
        &ErrorAverages {
            ok_at_1pct: num(100.0),
            ok_at_10pct: num(100.0),
            mean_error: num(0.5),
            median_error: num(0.5),
        },
        &TrainingOutcome {
            best_epoch: 4,
            final_epoch: 9,
            stopped_early: true,
            training_time_secs: num(1.5),
        },
    );
    assert_eq!(val(summary.max_error), 0.5);
    assert_eq!(val(summary.r2_imag), 0.5);
    assert_eq!((summary.best_epoch, summary.final_epoch), (4, 9));
}

#[test]
fn medians_of_members() {
    let odd = vec![
        tensor(&[1.0, 9.0], &[1, 2]),
        tensor(&[3.0, 7.0], &[1, 2]),
        tensor(&[2.0, 8.0], &[1, 2]),
    ];
    assert_eq!(
        per_element_median(&odd).unwrap(),
        vec![Median::Known(num(2.0)), Median::Known(num(8.0))]
    );
    let even = vec![tensor(&[3.0], &[1, 1]), tensor(&[1.0], &[1, 1])];
    assert_eq!(
        per_element_median(&even).unwrap(),
        vec![Median::Halfway(num(1.0), num(3.0))]
    );
    assert!(per_element_median(&vec![]).is_err());
}

#[test]
fn measurements_are_read_from_either_layout() {
    let real = build_s_measured(&tensor(&[1.0, 2.0, 3.0, 4.0], &[1, 4]), false).unwrap();
    let packed = build_s_measured(&tensor(&[1.0, 3.0, 2.0, 4.0], &[1, 4]), true).unwrap();
    assert_eq!(vals(&real.real.values), vec![1.0, 3.0]);
    assert_eq!(vals(&real.imag.values), vec![2.0, 4.0]);
    assert_eq!(real.real.values, packed.real.values);
    assert_eq!(real.imag.values, packed.imag.values);
    assert!(build_s_measured(&tensor(&[1.0, 2.0], &[1, 2]), false).is_err());
    let joined = join_chunks(
        &vec![tensor(&[1.0], &[1, 1]), tensor(&[2.0], &[1, 1])],
        &vec![tensor(&[3.0], &[1, 1]), tensor(&[4.0], &[1, 1])],
    )
    .unwrap();
    assert_eq!(vals(&joined.imag.values), vec![3.0, 4.0]);
}

#[test]
fn statistics_of_relative_errors() {
    let stats = metrics_from_relative_error(&nums(&[4.0, 0.5, 12.0, 1.0])).unwrap();
    assert_eq!((stats.count, stats.ok_at_1, stats.ok_at_10), (4, 2, 3));
    assert_eq!(val(stats.max), 12.0);
    assert_eq!(val(stats.min), 0.5);
    assert_eq!(val(stats.median), 1.0);
    let four = metrics_from_relative_error(&nums(&[50.0, 100.0, 150.0, 200.0])).unwrap();
    assert_eq!((val(four.median), val(four.max), val(four.min)), (100.0, 200.0, 50.0));
    assert_eq!((four.ok_at_1, four.ok_at_10), (0, 0));
    let odd = metrics_from_relative_error(&nums(&[4.0, 0.5, 12.0])).unwrap();
    assert_eq!(val(odd.median), 4.0);
    assert!(metrics_from_relative_error(&vec![]).is_err());
    let summary = stacked_summary(&stats, num(50.0), num(75.0), num(4.375));
    assert_eq!(val(summary.ok_at_10pct), 75.0);
    assert_eq!(val(summary.median_error), 1.0);
    assert_eq!(val(summary.max_error), 12.0);
    assert_eq!(val(summary.r2_real), 0.0);
    assert_eq!((summary.best_epoch, summary.stopped_early), (0, false));
}

#[test]
fn stacked_training_is_planned() {
    let mut config = StackedTrainConfig::from_base(base_config(7, None));
    let plan = plan_stacked_training(&config);
    assert_eq!(plan.len(), 1);
    assert!(matches!(
        plan[0],
        StackStep::Train { member: 1, members: 1, seed: 7, shuffle_seed: None }
    ));
    config.train_overlay_density = 8;
    config.ensemble_size = 2;
    config.refine_steps = 100;
    let plan = plan_stacked_training(&config);
    let trained: Vec<(u64, Option<u64>)> = plan
        .iter()
        .filter_map(|step| match step {
            StackStep::Train { seed, shuffle_seed, .. } => Some((*seed, *shuffle_seed)),
            _ => None,
        })
        .collect();
    assert_eq!(trained, vec![(7, Some(7)), (8, Some(8))]);
    assert!(matches!(plan[1], StackStep::Overlay { density: 8, seed: 7 }));
    assert!(plan.iter().any(|step| matches!(step, StackStep::Metrics { steps: 100 })));
    assert!(matches!(
        &plan[2],
        StackStep::Status(text) if text == "Training ensemble member 1 of 2 (stack stage 2)…"
    ));

    let run = || TrainRunResult {
        arch_description: "a".to_string(),
        parameter_count: 1,
        metrics: metrics(),
        checkpoint_path: None,
        weights: vec![1],
    };
    let result = stacked_result(&config, run(), vec![vec![1], vec![2]], metrics());
    let members = result.ensemble_weights.unwrap();
    assert_eq!(members.len(), 2);
    assert_eq!(members[0], result.primary.weights);
    assert!(result.stacked_metrics.is_some());
    let plain = StackedTrainConfig::from_base(base_config(7, None));
    let result = stacked_result(&plain, run(), vec![vec![1]], metrics());
    assert!(result.ensemble_weights.is_none());
    assert!(result.stacked_metrics.is_none());
}

#[test]
fn overlays_add_their_patch_to_the_training_samples() {
    assert!(overlay_config(0, 1).is_none());
    let config = overlay_config(8, 5).unwrap();
    assert_eq!(config.dense_patch_n_train, (8, 8));
    assert_eq!(config.seed, 5);
    let overlay = GeneratedDataset {
        train: vec![sample(9.0, 0.0, false), sample(1.5, 0.5, true)],
        validation: vec![],
        test: vec![],
        config: DataGenerationConfig::default(),
    };
    let train = vec![sample(2.0, 0.0, false)];
    let augmented = augmented_training(&train, &overlay);
    assert_eq!(augmented, vec![sample(2.0, 0.0, false), sample(1.5, 0.5, true)]);
}

#[test]
fn stacked_metrics_are_planned_in_chunks() {
    let steps = plan_stacked_metrics(100_001, 2, 20);
    let medians: Vec<(usize, usize)> = steps
        .iter()
        .filter_map(|step| match step {
            MetricsStep::TakeMedian { start, rows } => Some((*start, *rows)),
            _ => None,
        })
        .collect();
    assert_eq!(medians, vec![(0, 100_000), (100_000, 1)]);
    assert!(matches!(steps[1], MetricsStep::BuildModels { members: 2 }));
    let forwards = steps.iter().filter(|s| matches!(s, MetricsStep::Forward { .. })).count();
    assert_eq!(forwards, 4);
    let single = plan_stacked_metrics(5, 1, 0);
    assert_eq!(single.len(), 4);
    assert_eq!(refinement_interval(25), 3);
    assert_eq!(refinement_interval(0), 1);
    let told: Vec<usize> = (1..=25).filter(|s| should_log(*s, 25, 3)).collect();
    assert_eq!(told, vec![3, 6, 9, 12, 15, 18, 21, 24, 25]);
    assert!(!should_log(5, 25, 0));
    assert_eq!(
        refinement_text(1, 1, 3, 25, "1.0e-3"),
        "Stage 3/4: NRW refinement 3/25 (residual = 1.0e-3)"
    );
}

#[test]
fn single_measurements_are_inverted() {
    let s = S11S21::new(num(1.0), num(2.0), num(3.0), num(4.0));
    assert_eq!(vals(&inference_input(&s, ModelType::Real).values), vec![1.0, 2.0, 3.0, 4.0]);
    assert_eq!(vals(&inference_input(&s, ModelType::Complex).values), vec![1.0, 3.0, 2.0, 4.0]);
    let output = tensor(&[5.0, -6.0], &[1, 2]);
    assert_eq!(
        permittivity_from_output(&output, ModelType::Complex).unwrap(),
        (num(5.0), num(6.0))
    );
    assert_eq!(
        permittivity_from_output(&output, ModelType::Real).unwrap(),
        (num(5.0), num(-6.0))
    );
    assert!(permittivity_from_output(&tensor(&[5.0], &[1, 1]), ModelType::Real).is_err());
    assert_eq!(
        permittivity_from_stack(&nums(&[5.0]), &nums(&[-6.0]), ModelType::Complex).unwrap(),
        (num(5.0), num(6.0))
    );
    assert!(permittivity_from_stack(&vec![], &vec![], ModelType::Real).is_err());
    assert_eq!(nrw_permittivity(num(2.0), num(-0.5)), Some((num(2.0), num(0.5))));
    assert_eq!(nrw_permittivity(num(f64::NAN), num(0.0)), None);
    assert_eq!(val(user_sample(&s).eps_prime), 0.0);
    assert_eq!(all_members(vec![1], vec![vec![2], vec![3]]), vec![vec![1], vec![2], vec![3]]);
}

#[test]
fn losses_use_what_is_there() {
    let nothing = LossContext {
        has_feature_scaler: false,
        has_target_scaler: false,
        has_physics: false,
        unsupervised: false,
    };
    let all = LossContext {
        has_feature_scaler: true,
        has_target_scaler: true,
        has_physics: true,
        unsupervised: true,
    };
    let weight = num(0.5);
    assert_eq!(packed_loss(MlpLoss::PhysicsForward, weight, nothing).kernel, LossKernel::MeanSquared);
    assert_eq!(
        packed_loss(MlpLoss::PhysicsForward, weight, all).kernel,
        LossKernel::Physics { weight, supervised: false }
    );
    assert_eq!(packed_loss(MlpLoss::EpsRelMse, weight, all).kernel, LossKernel::RelativeError);
    assert!(packed_loss(MlpLoss::Mse, weight, all).clamps);
    assert!(needs_unscaled_targets(MlpLoss::EpsRelMse));
    assert!(!needs_unscaled_targets(MlpLoss::SmoothL1 { beta: weight }));
    let predictions = tensor(&[5.0, 6.0], &[1, 2]);
    assert!(is_turned_for_physics(ModelType::Real));
    assert!(!is_turned_for_physics(ModelType::Complex));
    let eps = permittivity_for_physics(&predictions, ModelType::Real);
    assert_eq!((vals(&eps.real.values), vals(&eps.imag.values)), (vec![5.0], vec![-6.0]));
    let eps = permittivity_for_physics(&predictions, ModelType::Complex);
    assert_eq!(vals(&eps.imag.values), vec![6.0]);
}

#[test]
fn round_trips_over_a_grid() {
    assert_eq!(linspace_plan((num(1.0), num(2.0)), 0), AxisPlan::Empty);
    assert_eq!(linspace_plan((num(1.0), num(2.0)), 1), AxisPlan::Single(num(1.0)));
    assert_eq!(linspace_plan((num(1.0), num(2.0)), 3), AxisPlan::Spaced(num(1.0), num(2.0), 3));
    assert!(check_nrw_grid(1, 0).is_err());
    let s = S11S21::new(num(1.0), num(2.0), num(3.0), num(4.0));
    let grid = nrw_grid(&vec![(num(1.0), num(0.5))], &vec![s]);
    assert_eq!(vals(&grid.true_imag), vec![0.5]);
    assert_eq!(val(grid.samples[0].s21_imag), 4.0);
    assert_eq!(vals(&loss_factors(&nums(&[-0.5, 0.25]))), vec![0.5, -0.25]);
    assert!(matches!(spread_of(&nums(&[1.0, f64::NAN])), Spread::Zero));
    match spread_of(&nums(&[1.0, f64::INFINITY, 3.0])) {
        Spread::Over(values) => assert_eq!(vals(&values), vec![1.0, 3.0]),
        Spread::Zero => panic!("two errors are finite"),
    }
}

#[test]
fn diagnostics_classify_and_lay_out() {
    let config = NrwDiagnosticsConfig::default();
    assert!(validate_config(&config).is_ok());
    assert_eq!(val(config.frequency), 8.2e9);
    let bad = NrwDiagnosticsConfig { thresholds: vec![], ..NrwDiagnosticsConfig::default() };
    assert_eq!(
        validate_config(&bad).unwrap_err().to_string(),
        "At least one NRW diagnostics threshold is required"
    );
    let bad = NrwDiagnosticsConfig { d: num(0.0), ..NrwDiagnosticsConfig::default() };
    assert!(message(&validate_config(&bad).unwrap_err()).contains("sample thickness d"));

    let eps_prime = nums(&[1.0, 1.0, 2.0, 2.0]);
    let eps_double_prime = nums(&[0.0, 1.0, 0.0, 1.0]);
    let errors = nums(&[0.5, 5.0, 20.0, 0.25]);
    let columns = vec![Some(0), Some(0), Some(1), Some(1)];
    let rows = vec![Some(0), Some(1), Some(0), Some(1)];
    let analysis = analyze_thresholds(
        &config,
        &errors,
        Some((2, 2)),
        &columns,
        &rows,
        &eps_prime,
        &eps_double_prime,
    )
    .unwrap();
    assert_eq!(analysis.results[0].ok_count, 3);
    assert_eq!(analysis.results[1].ok_count, 2);
    assert_eq!(analysis.figures[1].ordered_mask, vec![true, false, false, true]);
    let off = vec![Some(0), None, Some(1), Some(1)];
    let error = reorder_mask_for_grid(
        &vec![true; 4],
        (2, 2),
        &off,
        &rows,
        &eps_prime,
        &eps_double_prime,
    )
    .unwrap_err();
    assert_eq!(message(&error), "eps' value 1 does not belong to the detected grid");
    assert_eq!(find_axis_index(&nums(&[0.5, 0.0]), num(1e-9)), Some(1));
    assert_eq!(find_axis_index(&nums(&[0.5]), num(1e-9)), None);

    let report = build_report(
        4,
        Some((2, 2)),
        analysis.results,
        &DiagnosticsFigures {
            r2_real: num(0.9),
            r2_imag: num(0.8),
            mean_error: num(5.0),
            max_error: num(12.0),
            min_error: num(0.1),
        },
    );
    assert!(report.figure_paths.is_empty());
    let text = format_nrw_diagnostics_summary(
        &report,
        &DiagnosticsTexts {
            width_mm: "22.86".to_string(),
            thickness_mm: "1.50".to_string(),
            frequency_ghz: "8.20".to_string(),
            mean_error: "5.0000".to_string(),
            max_error: "12.0000".to_string(),
            min_error: "0.1000".to_string(),
            r2_real: "0.900000".to_string(),
            r2_imag: "0.800000".to_string(),
            thresholds: vec![
                ("10".to_string(), "75.00".to_string()),
                ("1".to_string(), "50.00".to_string()),
            ],
        },
    );
    assert!(text.contains("Waveguide: a=22.86mm, d=1.50mm, f=8.20GHz"), "{text}");
    assert!(text.contains("Samples within threshold: 3/4 (75.00%)"), "{text}");
    assert!(text.contains("Grid structure: 2 x 2"), "{text}");
}

#[test]
fn diagnostics_refuse_an_empty_file() {
    let header = b"S11_real,S11_imag,S21_real,S21_imag,eps_prim,eps_secund\n";
    let (columns, table) = read_samples(header, TableUse::Diagnostics).unwrap();
    assert!(table.records.is_empty());
    assert_eq!(
        message(&diagnostics_samples(&columns, &vec![], "in.csv").unwrap_err()),
        "NRW diagnostics input 'in.csv' does not contain any samples"
    );
    let one = vec![Ok(vec![
        Ok(num(1.0)),
        Ok(num(2.0)),
        Ok(num(3.0)),
        Ok(num(4.0)),
        Ok(num(5.0)),
        Ok(num(6.0)),
    ])];
    assert_eq!(val(diagnostics_samples(&columns, &one, "in.csv").unwrap()[0].eps_prime), 5.0);
}

#[test]
fn benchmark_suites_and_reports() {
    assert_eq!(select_suites("nrw").unwrap(), vec![Suite::Nrw]);
    assert_eq!(select_suites("all").unwrap(), vec![Suite::Nrw, Suite::Model, Suite::Training]);
    assert!(select_suites("gpu").is_err());
    assert_eq!(report_target("md").unwrap(), ReportTarget::Markdown);
    assert!(report_target("xml").is_err());
    let cases = suite_cases(Suite::Training, 100, 500);
    assert_eq!(cases[1].name, "train_1ep_h128x2_n500");
    assert_eq!(cases[1].iterations, 20);
    assert_eq!(suite_cases(Suite::Nrw, 7, 0)[4].name, "nrw_batch_4096");
    let report = BenchmarkReport {
        suites: vec![SuiteResult {
            name: "nrw".to_string(),
            benchmarks: vec![BenchEntry {
                name: "nrw_batch_1".to_string(),
                iterations: 7,
                mean_us: "12.5".to_string(),
                throughput: None,
            }],
        }],
        total_time_secs: "1.2".to_string(),
    };
    assert!(format_markdown(&report).contains("| nrw_batch_1 | 7 | 12.5 | — |\n"));
    let text = format_text(&report);
    assert!(text.contains("nrw_batch_1"));
    assert!(text.contains("=== NRW ==="));
    let mut named = report;
    named.suites[0].name = "maße é1".to_string();
    assert!(format_text(&named).contains("=== MASSE É1 ==="));
    assert_eq!(suite_under_title(&named.suites[0], "any")[1], "=== any ===");
}

#[test]
fn round_trip_texts() {
    let texts = NrwTexts {
        frequency: String::from("10.000"),
        thickness: String::from("5.000"),
        width: String::from("22.860"),
    };
    assert_eq!(
        nrw_label(&texts, 3, 20),
        "NRW analytical (no model) — f = 10.000 GHz, d = 5.000 mm, a = 22.860 mm, grid 3×20"
    );
    assert_eq!(
        nrw_line(&texts, 3, 20, "99.5", "100.0", false).unwrap(),
        "NRW analytical round-trip: f=10.000 GHz, d=5.000 mm, a=22.860 mm, grid 3×20, OK@1%=99.5%, OK@10%=100.0%"
    );
    assert!(nrw_line(&texts, 3, 20, "99.5", "100.0", true).is_none());
}

#[test]
fn tallies_of_errors() {
    let relative = report_relative_errors(&nums(&[0.5, 1.0, 9.0, 11.0]));
    assert_eq!(relative.count, 4);
    assert_eq!(val(relative.max), 11.0);
    assert_eq!(relative.within, vec![2, 3]);
    let absolute = report_absolute_errors(&nums(&[0.1, 0.2, 0.5, 2.0]));
    assert_eq!(absolute.within, vec![1, 3, 3]);
    let none = report_relative_errors(&[]);
    assert_eq!(none.count, 0);
    assert_eq!(val(none.max), 0.0);
    assert_eq!(none.within, vec![0, 0]);
}

#[test]
fn lines_of_tallies() {
    let mut texts = TallyTexts {
        mean: String::from("1.00"),
        std: String::from("0.50"),
        max: String::from("3.00"),
        shares: vec![String::from("60.00"), String::from("99.00")],
    };
    assert_eq!(
        relative_line("eps'", &texts),
        "  eps': Mean=1.00%, Std=0.50%, Max=3.00%, OK@1%=60.00%, OK@10%=99.00%"
    );
    texts.shares.push(String::from("100.00"));
    assert_eq!(
        absolute_line("eps\"", &texts),
        "  eps\": Mean=1.00, Std=0.50, Max=3.00, OK@0.1=60.00%, OK@0.5=99.00%, OK@1.0=100.00%"
    );
}

#[test]
fn lossy_points_and_regions() {
    let truth = nums(&[0.0, 1.0, 2.0, f64::NAN]);
    let values = nums(&[10.0, 11.0, 12.0, 13.0]);
    assert_eq!(vals(&lossy_values(&truth, &values)), vec![11.0, 12.0]);
    let places = points_in_region(&nums(&[1.0, 2.0, 3.0, 4.0]), num(2.0), num(3.0));
    assert_eq!(places, vec![1, 2]);
}

#[test]
fn stability_report() {
    let part = |truth: &str| StabilityTexts {
        truth: String::from(truth),
        mean: String::from("4.0"),
        std: String::from("0.1"),
        worst: String::from("2.5"),
    };
    let lines = report_stability_results(Estimator::Nrw, &part("4.000"), &part("0.500"));
    assert_eq!(
        lines,
        vec![
            "NRW Baseline         Results:",
            "  Real Part (eps'_r = 4.000):",
            "    Extracted Mean: 4.0",
            "    Extracted Std : 0.1",
            "    Worst-case Rel-Err: 2.5%",
            "  Imaginary Part (eps\"_r = 0.500):",
            "    Extracted Mean: 4.0",
            "    Extracted Std : 0.1",
            "    Worst-case Rel-Err: 2.5%",
        ]
    );
    assert_eq!(Estimator::Cvnn.as_str(), "CVNN Complex-MLP");
}

#[test]
fn axes_of_a_round_trip() {
    let mut config = NrwEvaluateConfig {
        d: num(1.5e-3),
        a: num(22.86e-3),
        frequency: num(8.2e9),
        eps_prime_range: (num(1.0), num(10.0)),
        eps_double_prime_range: (num(0.5), num(2.0)),
        n_eps_prime: 4,
        n_eps_double_prime: 1,
        thresholds: (num(1.0), num(10.0)),
        generate_plots: false,
        quiet: true,
    };
    let axes = plan_nrw_evaluation(&config, None).unwrap();
    assert_eq!(axes.0, AxisPlan::Spaced(num(1.0), num(10.0), 4));
    assert_eq!(axes.1, AxisPlan::Single(num(0.5)));
    let refused = plan_nrw_evaluation(&config, Some("bad waveguide")).unwrap_err();
    assert_eq!(message(&refused), "bad waveguide");
    config.n_eps_prime = 0;
    let refused = plan_nrw_evaluation(&config, Some("bad waveguide")).unwrap_err();
    assert_eq!(message(&refused), "grid dimensions must be positive");
}

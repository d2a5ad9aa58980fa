//! Hyper-parameter studies, forms and training plans.

use sparam::model::ModelType;
use sparam::scalar::Scalar;
use sparam::data::generation::PermittivitySample;
use sparam::data::loader::BatchSize;
use sparam::json::{object_text, unsigned_field, JsonValue};
use sparam::workflows::config::{
    ComplexNorm, ModelConfig, StackedInferenceConfig, StackedTrainConfig, TrainConfig,
};
use sparam::workflows::hpo::{
    build_custom_search_space, check_study_samples, objective_importance, parse_model_types,
    plan_studies, skips_fanova, trial_status, Effects, ImportanceMethod, MlpSearchSpace,
    SearchSpaceConfig, StudyPlan, Vocabulary,
};
use sparam::workflows::hpo_form::{default_n_trials, HpoForm};
use sparam::workflows::hpo_study::{
    front_lines, importance_rows, importance_title, objective_names, plan_hpo,
    skipped_fanova_line, study_lines, summarize_study, trial_event, trial_progress_line,
    CompletedTrial,
};
use sparam::workflows::train::{
    completion_line, configuration_rows, input_noise, log_context, plan_optimizer, plan_training,
    splits_line, OptimizerPlan, TrainingOutcome, TrainingPlan,
};
use sparam::workflows::train_form::{
    default_batch_size, default_ensemble_size, default_hidden_size, default_lr, empty_as_none, TrainForm,
    TrainSplits,
};

fn num(value: f64) -> Scalar {
    Scalar::from_bits(value.to_bits())
}

fn val(value: Scalar) -> f64 {
    f64::from_bits(value.bits)
}

fn names(list: &[&str]) -> Vec<String> {
    list.iter().map(|s| s.to_string()).collect()
}

fn vocabulary(model_type: ModelType) -> Vocabulary {
    let (activations, losses) = match model_type {
        ModelType::Real => (names(&["relu", "tanh", "gelu"]), names(&["mse", "smooth_l1", "eps_rel_mse"])),
        ModelType::Complex => (
            names(&["crelu", "cgelu", "cardioid"]),
            names(&["mse", "smooth_l1", "physics_forward"]),
        ),
    };
    Vocabulary {
        activations,
        norms: names(&["none", "layernorm", "batchnorm"]),
        optimizers: names(&["adam", "adamw", "sgd", "rmsprop"]),
        batch_sizes: names(&["8", "16", "32", "64", "128", "256", "all"]),
        losses,
        schedulers: names(&["none", "cosine", "plateau"]),
        grad_clips: names(&["none", "0.5", "1.0", "5.0"]),
    }
}

fn space(config: &SearchSpaceConfig, model_type: ModelType) -> MlpSearchSpace {
    build_custom_search_space(config, model_type, &vocabulary(model_type))
}

fn some_names(list: &[&str]) -> Option<Vec<String>> {
    Some(names(list))
}

fn bounds(range: Option<(Scalar, Scalar)>) -> Option<(f64, f64)> {
    range.map(|(lo, hi)| (val(lo), val(hi)))
}

fn toy_samples(n: usize, seed: u64) -> Vec<PermittivitySample> {
    (0..n)
        .map(|i| {
            let t = ((seed as f64) + (i as f64)) * 0.037;
            PermittivitySample {
                s11_real: num((t * 1.3).sin() * 0.5),
                s11_imag: num((t * 1.7).cos() * 0.5),
                s21_real: num((t * 2.1).sin() * 0.8),
                s21_imag: num((t * 2.3).cos() * 0.8),
                eps_prime: num(3.0 + (t * 0.5).sin() * 0.5),
                eps_double_prime: num(0.05 + (t * 0.7).cos() * 0.05),
                is_dense_patch: false,
            }
        })
        .collect()
}

fn base_config(seed: u64) -> TrainConfig {
    TrainConfig {
        train_samples: toy_samples(64, seed + 1),
        val_samples: toy_samples(16, seed + 2),
        test_samples: toy_samples(16, seed + 3),
        checkpoint_path: None,
        model: ModelConfig::real_model(8, Ok("gelu".to_string()), num(0.0), "none".to_string())
            .unwrap(),
        optimizer: "adamw".to_string(),
        lr: num(1e-2),
        weight_decay: num(1e-4),
        batch_size: "16".to_string(),
        max_epochs: 3,
        patience: 100,
        warmup_epochs: 0,
        scheduler: "none".to_string(),
        loss: "mse".to_string(),
        checkpoint: None,
        seed,
        log_progress: false,
        shuffle_seed: None,
        grad_clip_norm: None,
        input_noise_std: None,
        cosine_eta_min: None,
        plateau_factor: None,
        plateau_patience: None,
        plateau_min_lr: None,
        sgd_momentum: None,
        sgd_nesterov: None,
        rmsprop_momentum: None,
        rmsprop_alpha: None,
        pi_mape_beta: None,
        physics_lambda: None,
    }
}

fn planned(config: &TrainConfig) -> TrainingPlan {
    plan_training(config, true).unwrap()
}

fn splits() -> TrainSplits {
    TrainSplits { train: toy_samples(3, 1), val: toy_samples(2, 2), test: toy_samples(1, 3) }
}

fn hpo_form(model_type: &str, n_trials: usize) -> HpoForm {
    HpoForm {
        dataset_id: 1,
        study_name: "t".to_string(),
        model_type: model_type.to_string(),
        n_trials,
        max_epochs: 10,
        n_jobs: 1,
        patience: 5,
        warmup_epochs: 0,
        seed: 1,
        search_space_json: String::new(),
    }
}

fn train_form(model_type: &str) -> TrainForm {
    TrainForm {
        dataset_id: 1,
        model_type: model_type.to_string(),
        hidden_size: 48,
        activation: "gelu".to_string(),
        complex_activation: "crelu".to_string(),
        dropout: num(0.1),
        norm: "none".to_string(),
        optimizer: "adamw".to_string(),
        lr: num(0.0284),
        weight_decay: num(0.000459),
        max_epochs: 25,
        batch_size: "64".to_string(),
        patience: 10,
        warmup_epochs: 10,
        scheduler: "none".to_string(),
        loss: "mse".to_string(),
        seed: 270,
        shuffle_seed: None,
        grad_clip_norm: Some(num(1.0)),
        input_noise_std: Some(num(0.0)),
        cosine_eta_min: None,
        plateau_factor: None,
        plateau_patience: None,
        plateau_min_lr: None,
        sgd_momentum: None,
        sgd_nesterov: None,
        rmsprop_momentum: None,
        rmsprop_alpha: None,
        pi_mape_beta: None,
        physics_lambda: None,
        m10_train_overlay_density: 8,
        m10_ensemble_size: 0,
        m10_refine_steps: 20,
        m10_refine_lr: num(0.001),
    }
}

fn written(form: &TrainForm) -> Vec<String> {
    form.doubles()
        .iter()
        .map(|double| match double {
            Some(number) => format!("{:?}", val(*number)),
            None => String::new(),
        })
        .collect()
}

fn trial(number: usize) -> CompletedTrial {
    CompletedTrial {
        trial_number: number,
        successful: true,
        feasible: true,
        val_loss: num(0.25),
        ok_at_1pct: num(90.0),
        hidden_size: 32,
        param_count: 100,
        max_error: num(3.0),
        lr: num(0.01),
        training_time_secs: num(2.0),
    }
}

#[test]
fn parse_model_types_handles_real_complex_both_and_rejects_unknown() {
    assert_eq!(parse_model_types("real").unwrap(), vec![ModelType::Real]);
    assert_eq!(parse_model_types("complex").unwrap(), vec![ModelType::Complex]);
    assert_eq!(parse_model_types("both").unwrap(), vec![ModelType::Real, ModelType::Complex]);

    assert_eq!(parse_model_types("  REAL ").unwrap(), vec![ModelType::Real]);
    assert_eq!(parse_model_types("Both").unwrap(), vec![ModelType::Real, ModelType::Complex]);

    let err = parse_model_types("elephant").unwrap_err().to_string();
    assert!(err.contains("or 'both'"), "got: {err}");
}

#[test]
fn complex_overrides_separate_hidden_size_from_real() {
    let cfg = SearchSpaceConfig {
        hidden_sizes: Some(vec![8, 16, 32]),
        complex_hidden_sizes: Some(vec![4, 8, 12]),
        ..Default::default()
    };

    assert_eq!(space(&cfg, ModelType::Real).hidden_size, Some(vec![8, 16, 32]));
    assert_eq!(space(&cfg, ModelType::Complex).hidden_size, Some(vec![4, 8, 12]));
}

#[test]
fn complex_does_not_inherit_base_hidden_sizes_or_activations() {
    let cfg = SearchSpaceConfig {
        hidden_sizes: Some(vec![64, 128]),
        activations: some_names(&["relu", "tanh"]),
        ..Default::default()
    };

    let complex = space(&cfg, ModelType::Complex);

    assert_eq!(complex.hidden_size, None);
    assert_eq!(complex.activation, None);
}

#[test]
fn complex_inherits_base_lr_range_when_no_override() {
    let cfg = SearchSpaceConfig {
        lr_min: Some(num(2e-4)),
        lr_max: Some(num(1e-2)),
        ..Default::default()
    };

    assert_eq!(bounds(space(&cfg, ModelType::Complex).lr), Some((2e-4, 1e-2)));
}

#[test]
fn complex_inherits_base_weight_decay_range_when_no_override() {
    let cfg = SearchSpaceConfig {
        weight_decay_min: Some(num(5e-10)),
        weight_decay_max: Some(num(3e-3)),
        ..Default::default()
    };

    assert_eq!(bounds(space(&cfg, ModelType::Complex).weight_decay), Some((5e-10, 3e-3)));
}

#[test]
fn complex_weight_decay_override_wins_over_base() {
    let cfg = SearchSpaceConfig {
        weight_decay_min: Some(num(5e-10)),
        weight_decay_max: Some(num(3e-3)),
        complex_weight_decay_min: Some(num(7e-7)),
        complex_weight_decay_max: Some(num(4e-4)),
        ..Default::default()
    };

    assert_eq!(bounds(space(&cfg, ModelType::Complex).weight_decay), Some((7e-7, 4e-4)));
}

#[test]
fn activations_are_filtered_to_model_types_whitelist() {
    let cfg_real = SearchSpaceConfig {
        activations: some_names(&["relu", "tanh", "crelu", "cardioid"]),
        ..Default::default()
    };
    assert_eq!(space(&cfg_real, ModelType::Real).activation, some_names(&["relu", "tanh"]));

    let cfg_complex = SearchSpaceConfig {
        complex_activations: some_names(&["crelu", "cardioid", "relu", "gelu"]),
        ..Default::default()
    };
    assert_eq!(
        space(&cfg_complex, ModelType::Complex).activation,
        some_names(&["crelu", "cardioid"])
    );
}

#[test]
fn empty_filtered_activations_falls_back_to_type_defaults() {
    let cfg = SearchSpaceConfig {
        activations: some_names(&["crelu", "cardioid"]),
        ..Default::default()
    };
    assert_eq!(space(&cfg, ModelType::Real).activation, None);
}

#[test]
fn enum_subset_toggles_restrict_sampler() {
    let cfg = SearchSpaceConfig {
        optimizers: some_names(&["adam"]),
        batch_sizes: some_names(&["32", "64"]),
        losses: some_names(&["smooth_l1"]),
        schedulers: some_names(&["cosine"]),
        grad_clips: some_names(&["none"]),
        ..Default::default()
    };
    let real = space(&cfg, ModelType::Real);

    assert_eq!(real.optimizer, some_names(&["adam"]));
    assert_eq!(real.train_batch_size, some_names(&["32", "64"]));
    assert_eq!(real.loss, some_names(&["smooth_l1"]));
    assert_eq!(real.scheduler, some_names(&["cosine"]));
    assert_eq!(real.grad_clip_norm, some_names(&["none"]));
}

#[test]
fn complex_inherits_base_enum_subsets_when_no_override() {
    let cfg = SearchSpaceConfig {
        optimizers: some_names(&["adam"]),
        batch_sizes: some_names(&["64"]),
        schedulers: some_names(&["cosine"]),
        ..Default::default()
    };
    let complex = space(&cfg, ModelType::Complex);

    assert_eq!(complex.optimizer, some_names(&["adam"]));
    assert_eq!(complex.train_batch_size, some_names(&["64"]));
    assert_eq!(complex.scheduler, some_names(&["cosine"]));
}

#[test]
fn eps_rel_mse_is_rejected_for_complex_model_type() {
    let cfg = SearchSpaceConfig {
        losses: some_names(&["mse", "smooth_l1", "eps_rel_mse"]),
        ..Default::default()
    };
    assert_eq!(space(&cfg, ModelType::Complex).loss, some_names(&["mse", "smooth_l1"]));
}

#[test]
fn complex_only_loss_is_rejected_for_real_model_type() {
    let cfg = SearchSpaceConfig {
        losses: some_names(&["mse", "physics_forward"]),
        ..Default::default()
    };
    assert_eq!(space(&cfg, ModelType::Real).loss, some_names(&["mse"]));
}

#[test]
fn complex_enum_subset_override_wins_over_base() {
    let cfg = SearchSpaceConfig {
        optimizers: some_names(&["adam", "sgd"]),
        complex_optimizers: some_names(&["adam"]),
        ..Default::default()
    };
    assert_eq!(space(&cfg, ModelType::Real).optimizer, some_names(&["adam", "sgd"]));
    assert_eq!(space(&cfg, ModelType::Complex).optimizer, some_names(&["adam"]));
}

#[test]
fn hpo_summary_output_serializes_per_objective_importance() {
    let scores = |list: &[(&str, f64)]| {
        list.iter().map(|(n, v)| (n.to_string(), num(*v))).collect::<Vec<(String, Scalar)>>()
    };
    let importance = vec![
        objective_importance(
            "ok_at_1pct".to_string(),
            10,
            None,
            scores(&[("lr", 0.5), ("activation", 0.3)]),
        ),
        objective_importance("param_count".to_string(), 10, None, scores(&[("hidden_size", 0.9)])),
        objective_importance(
            "max_error".to_string(),
            10,
            Some(Effects {
                main_effects: scores(&[("lr", 0.4), ("dropout_p", 0.2)]),
                interactions: num(0.125),
            }),
            scores(&[]),
        ),
    ];
    let plan = StudyPlan { model_type: ModelType::Real, name: "t".to_string() };
    let summary =
        summarize_study(&plan, 10, 10, &vec![trial(1), trial(4), trial(7)], &importance, num(1.0));

    assert_eq!(summary.study_name, "t");
    assert_eq!(summary.model_type, "real");
    assert_eq!(summary.pareto_front_size, 3);
    assert_eq!(summary.best_configs[1].trial, 4);

    let objectives: Vec<&str> =
        summary.param_importance_per_objective.iter().map(|e| e.0.as_str()).collect();
    assert!(objectives.contains(&"ok_at_1pct"));
    assert!(objectives.contains(&"param_count"));
    assert!(objectives.contains(&"max_error"));

    assert_eq!(objectives, objective_names());
    assert_eq!(summary.param_importance, scores(&[("lr", 0.5), ("activation", 0.3)]));
    assert_eq!(
        summary.param_interactions_per_objective,
        vec![("max_error".to_string(), num(0.125))]
    );
}

#[test]
fn enum_subset_unknown_names_are_ignored_and_empty_falls_back() {
    let cfg = SearchSpaceConfig {
        optimizers: some_names(&["adam", "lbfgs", "nonsense"]),
        ..Default::default()
    };
    assert_eq!(space(&cfg, ModelType::Real).optimizer, some_names(&["adam"]));

    let cfg_empty =
        SearchSpaceConfig { optimizers: some_names(&["nonsense", "xyz"]), ..Default::default() };
    assert_eq!(space(&cfg_empty, ModelType::Real).optimizer, None);
}

#[test]
fn dropout_min_is_honoured_when_supplied() {
    let cfg = SearchSpaceConfig {
        dropout_enabled: Some(true),
        dropout_min: Some(num(0.1)),
        dropout_max: Some(num(0.5)),
        ..Default::default()
    };
    assert_eq!(bounds(space(&cfg, ModelType::Real).dropout_p), Some((0.1, 0.5)));
}

#[test]
fn dropout_bounds_are_clamped_and_fallback_on_inverted_range() {
    let cfg = SearchSpaceConfig {
        dropout_enabled: Some(true),
        dropout_min: Some(num(0.9)),
        dropout_max: Some(num(0.3)),
        ..Default::default()
    };
    assert_eq!(bounds(space(&cfg, ModelType::Real).dropout_p), Some((0.0, 0.3)));

    let ranged = |min: Option<f64>, max: f64| {
        let cfg = SearchSpaceConfig {
            dropout_min: min.map(num),
            dropout_max: Some(num(max)),
            ..Default::default()
        };
        bounds(space(&cfg, ModelType::Real).dropout_p)
    };
    assert_eq!(ranged(None, -0.5), Some((0.0, 0.0)));
    assert_eq!(ranged(Some(0.2), -0.5), Some((0.0, 0.0)));
    assert_eq!(ranged(Some(-2.0), 7.0), Some((0.0, 1.0)));
    assert_eq!(ranged(Some(3.0), 7.0), Some((0.0, 1.0)));

    let off = SearchSpaceConfig { dropout_enabled: Some(false), ..Default::default() };
    assert_eq!(bounds(space(&off, ModelType::Real).dropout_p), Some((0.0, 1e-15)));
}

#[test]
fn norm_subset_is_applied() {
    let cfg = SearchSpaceConfig { norms: some_names(&["none", "layernorm"]), ..Default::default() };
    assert_eq!(space(&cfg, ModelType::Real).norm, some_names(&["none", "layernorm"]));
}

#[test]
fn every_complex_override_field_is_routed() {
    let cfg = SearchSpaceConfig {
        hidden_sizes: Some(vec![8]),
        complex_hidden_sizes: Some(vec![100]),
        lr_min: Some(num(1e-4)),
        lr_max: Some(num(1e-2)),
        complex_lr_min: Some(num(1e-3)),
        complex_lr_max: Some(num(5e-2)),
        ..Default::default()
    };

    let real = space(&cfg, ModelType::Real);
    let complex = space(&cfg, ModelType::Complex);

    assert_ne!(real.hidden_size, complex.hidden_size);
    assert_ne!(real.lr, complex.lr);
}

#[test]
fn build_doubles_trial_count_for_both_model_type() {
    let built = hpo_form("both", 20)
        .build(TrainSplits { train: vec![], val: vec![], test: vec![] })
        .unwrap();
    assert_eq!(built.total_trials, 40);
    assert_eq!(built.n_trials, 20);
    assert_eq!(unsigned_field(&built.config_json, "n_trials"), Some(20));
    assert_eq!(unsigned_field(&built.config_json, "max_epochs"), Some(10));
    assert!(built.config.search_space_json.is_none());
}

#[test]
fn build_keeps_single_trial_count_for_single_model_type() {
    let built = hpo_form("real", 30)
        .build(TrainSplits { train: vec![], val: vec![], test: vec![] })
        .unwrap();
    assert_eq!(built.total_trials, 30);
    assert_eq!(default_n_trials(), 50);
}

#[test]
fn form_with_empty_hpo_parity_fields_deserialises_to_none() {
    for field in [
        "grad_clip_norm",
        "input_noise_std",
        "cosine_eta_min",
        "plateau_factor",
        "plateau_patience",
        "plateau_min_lr",
        "sgd_momentum",
        "sgd_nesterov",
        "rmsprop_momentum",
        "rmsprop_alpha",
    ] {
        assert_eq!(empty_as_none(Some(String::new())), None, "{field}");
    }
    assert_eq!(empty_as_none(None), None);
}

#[test]
fn form_with_populated_hpo_parity_fields_deserialises_correctly() {
    let number = |text: &str| {
        empty_as_none(Some(text.to_string())).map(|t| num(t.parse::<f64>().unwrap()))
    };
    assert_eq!(number("1.0"), Some(num(1.0)));
    assert_eq!(number("0"), Some(num(0.0)));
}

#[test]
fn forms_become_runs() {
    let built = train_form("complex")
        .build(splits(), Ok("crelu".to_string()), &written(&train_form("complex")))
        .unwrap();
    assert_eq!(built.model_name, "Complex MLP (2c-48c-1c)");
    assert_eq!(built.config.train_samples.len(), 3);
    assert!(!built.config.log_progress);
    assert!(matches!(
        built.config.model,
        ModelConfig::Complex { norm: ComplexNorm::LayerNorm, .. }
    ));
    assert_eq!(
        built.config_json,
        [
            "{\"batch_size\":\"64\",\"complex_activation\":\"crelu\",\"cosine_eta_min\":null,",
            "\"dropout\":0.1,\"grad_clip_norm\":1.0,\"hidden_size\":48,\"input_noise_std\":0.0,",
            "\"loss\":\"mse\",\"lr\":0.0284,\"m10_ensemble_size\":0,\"m10_refine_lr\":0.001,",
            "\"m10_refine_steps\":20,\"m10_train_overlay_density\":8,\"max_epochs\":25,",
            "\"model_type\":\"complex\",\"norm\":\"layernorm\",\"optimizer\":\"adamw\",",
            "\"patience\":10,\"physics_lambda\":null,\"pi_mape_beta\":null,",
            "\"plateau_factor\":null,\"plateau_min_lr\":null,\"plateau_patience\":null,",
            "\"rmsprop_alpha\":null,\"rmsprop_momentum\":null,\"scheduler\":\"none\",\"seed\":270,",
            "\"sgd_momentum\":null,\"sgd_nesterov\":null,\"shuffle_seed\":null,",
            "\"warmup_epochs\":10,\"weight_decay\":0.000459}",
        ]
        .concat()
    );

    let stacked = train_form("real")
        .build_stacked(splits(), Ok("gelu".to_string()), &written(&train_form("real")))
        .unwrap();
    assert_eq!(stacked.model_name, "Real MLP (4-48-2)");
    assert_eq!(stacked.config.ensemble_size, 1);
    assert_eq!(stacked.config.train_overlay_density, 8);
    assert!(!stacked.config.is_passthrough());
    let replayed = StackedInferenceConfig::from_config_json(&stacked.config_json, None, 42);
    assert_eq!(
        (replayed.overlay_density, replayed.seed, replayed.refine_steps),
        (8, 270, 20)
    );

    for digits in [0.9522444552911937, 0.0009364405867994597, 1.2345678901234567e-7, 3.0, 1e21] {
        let form = TrainForm { lr: num(digits), dropout: num(digits), ..train_form("real") };
        let texts = written(&form);
        let kept = form.build(splits(), Ok("gelu".to_string()), &texts).unwrap().config_json;
        let number = serde_json::to_string(&digits).unwrap();
        assert!(kept.contains(&format!("\"lr\":{number},")), "{kept}");
        assert!(kept.contains(&format!("\"dropout\":{number},")), "{kept}");
    }

    let texts = written(&train_form("real"));
    assert_eq!(
        train_form("real").build(splits(), Err("no 'x'".to_string()), &texts).unwrap_err().0,
        "invalid activation: no 'x'"
    );
    assert_eq!(
        train_form("tensor").build(splits(), Ok("gelu".to_string()), &texts).unwrap_err().0,
        "unknown model type 'tensor', expected: real, complex"
    );
    let wrong = vec!["nothing".to_string(); texts.len()];
    assert!(train_form("real")
        .build(splits(), Ok("gelu".to_string()), &wrong)
        .unwrap_err()
        .0
        .starts_with("serialize config json: "));
    let model = train_form("real").model(Ok("gelu".to_string())).unwrap();
    let submitted = train_form("real").submission(splits(), model, Ok("{}".to_string())).unwrap();
    assert_eq!(submitted.config_json, "{}");
    assert_eq!(submitted.config.seed, 270);
    let model = train_form("real").model(Ok("gelu".to_string())).unwrap();
    assert_eq!(
        train_form("real").submission(splits(), model, Err("full".to_string())).unwrap_err().0,
        "serialize config json: full"
    );
    assert_eq!(default_hidden_size(), 64);
    assert_eq!(default_batch_size(), "64");
    assert_eq!(val(default_lr()), 0.001);
    assert_eq!(default_ensemble_size(), 1);
}

#[test]
fn stages_are_read_back_from_settings() {
    let fields = vec![
        sparam::json::json_field("m10_train_overlay_density", JsonValue::Integer(8)),
        sparam::json::json_field("seed", JsonValue::Integer(5)),
        sparam::json::json_field("m10_refine_steps", JsonValue::Integer(20)),
    ];
    let text = object_text(&fields).unwrap();
    let stages = StackedInferenceConfig::from_config_json(&text, Some(num(0.5)), 42);
    assert_eq!((stages.overlay_density, stages.seed, stages.refine_steps), (8, 5, 20));
    assert_eq!(val(stages.refine_lr), 0.5);
    let none = StackedInferenceConfig::from_config_json("not json", None, 42);
    assert!(none.is_passthrough());
    assert_eq!(none.seed, 42);
    assert_eq!(val(none.refine_lr), 1e-3);
    assert!(StackedInferenceConfig::default().is_passthrough());
    assert!(StackedTrainConfig::from_base(base_config(1)).is_passthrough());
    let best = StackedTrainConfig::winning_recipe(base_config(1));
    assert_eq!((best.train_overlay_density, best.ensemble_size, best.refine_steps), (8, 3, 100));
}

#[test]
fn grad_clip_norm_is_plumbed_into_trainer() {
    let unclipped = planned(&base_config(777));

    let mut cfg = base_config(777);
    cfg.grad_clip_norm = Some(num(1e-4));
    let clipped = planned(&cfg);

    assert_eq!(unclipped.max_grad_norm, None);
    assert_eq!(clipped.max_grad_norm, Some(num(1e-4)));
}

#[test]
fn input_noise_std_is_plumbed_into_trainer() {
    let noiseless = planned(&base_config(888));

    let mut cfg = base_config(888);
    cfg.input_noise_std = Some(num(0.1));
    let noisy = planned(&cfg);

    assert_eq!(noiseless.input_noise_std, None);
    assert_eq!(noisy.input_noise_std, Some(num(0.1)));
}

#[test]
fn shuffle_seed_steers_training_trajectory() {
    let mut cfg_a = base_config(4242);
    cfg_a.shuffle_seed = Some(100);
    let mut cfg_b = base_config(4242);
    cfg_b.shuffle_seed = Some(200);

    assert_ne!(planned(&cfg_a).shuffle_seed, planned(&cfg_b).shuffle_seed);
}

#[test]
fn shuffle_seed_none_matches_seed_fallback() {
    let default_run = planned(&base_config(5151));

    let mut explicit_cfg = base_config(5151);
    explicit_cfg.shuffle_seed = Some(5151);

    assert_eq!(default_run.shuffle_seed, planned(&explicit_cfg).shuffle_seed);
}

#[test]
fn zero_input_noise_std_matches_none() {
    let noise_none = planned(&base_config(999));

    let mut cfg = base_config(999);
    cfg.input_noise_std = Some(num(0.0));

    assert_eq!(noise_none.input_noise_std, planned(&cfg).input_noise_std);
    assert_eq!(input_noise(Some(num(-1.0))), None);
}

#[test]
fn training_is_set_up() {
    let plan = planned(&base_config(1));
    assert_eq!(plan.batch_size, BatchSize::Fixed(16));
    assert_eq!(val(plan.physics_lambda), 1e-3);
    assert!(matches!(plan.optimizer, OptimizerPlan::Named { ref name, .. } if name == "adamw"));

    let mut cfg = base_config(1);
    cfg.optimizer = "SGD".to_string();
    cfg.sgd_nesterov = Some(true);
    assert!(matches!(plan_optimizer(&cfg), OptimizerPlan::Sgd { nesterov: true, .. }));
    cfg.sgd_nesterov = None;
    assert!(matches!(plan_optimizer(&cfg), OptimizerPlan::Named { .. }));
    cfg.optimizer = "rmsprop".to_string();
    cfg.rmsprop_momentum = Some(num(0.9));
    match plan_optimizer(&cfg) {
        OptimizerPlan::RmsProp { alpha, .. } => assert_eq!(val(alpha), 0.99),
        other => panic!("{other:?}"),
    }

    assert_eq!(
        plan_training(&base_config(1), false).unwrap_err().to_string(),
        "unknown scheduler 'none', expected: none, cosine, plateau"
    );
    let mut cfg = base_config(1);
    cfg.batch_size = "lots".to_string();
    assert!(plan_training(&cfg, true).is_err());

    assert_eq!(log_context(&base_config(9)), "train:Real MLP (4-8-2)@seed-9");
    assert_eq!(
        splits_line(&base_config(9)),
        "  Train: 64 samples, Val: 16 samples, Test: 16 samples"
    );
    let rows = configuration_rows(&base_config(9), 42, "1.00e-2", "1.00e-4");
    assert_eq!(rows[2].label, "Optimizer");
    assert_eq!(rows[2].value, "adamw (lr=1.00e-2, wd=1.00e-4)");
    let outcome = TrainingOutcome {
        best_epoch: 2,
        final_epoch: 3,
        stopped_early: false,
        training_time_secs: num(1.0),
    };
    assert_eq!(
        completion_line(&outcome),
        "\n  Training complete: best epoch 2/3, stopped_early=false"
    );
}

#[test]
fn studies_are_planned() {
    assert!(check_study_samples(1, 1, 1).is_ok());
    assert_eq!(
        check_study_samples(1, 0, 1).unwrap_err().to_string(),
        "HPO requires non-empty train/val samples"
    );
    assert!(check_study_samples(1, 1, 0).unwrap_err().to_string().contains("test split"));
    let plans = plan_studies("s", &vec![ModelType::Real, ModelType::Complex]);
    assert_eq!(plans[0].name, "s_real");
    assert_eq!(plans[1].name, "s_complex");
    assert_eq!(plan_studies("s", &vec![ModelType::Real])[0].name, "s");

    let built = hpo_form("both", 20).build(splits()).unwrap();
    let plans = plan_hpo(&built.config).unwrap();
    assert_eq!(plans.len(), 2);
    let (title, line) = study_lines(&plans[1], &built.config);
    assert_eq!(title, "\n--- HPO: t_complex (complex) ---");
    assert_eq!(line, "  Trials: 20, Jobs: 1, Epochs/trial: 10");
    let empty = hpo_form("both", 20)
        .build(TrainSplits { train: vec![], val: vec![], test: vec![] })
        .unwrap();
    assert!(plan_hpo(&empty.config).is_err());
    let unknown = hpo_form("elephant", 20).build(splits()).unwrap();
    assert!(plan_hpo(&unknown.config).unwrap_err().to_string().contains("elephant"));
}

#[test]
fn trials_and_importance_are_reported() {
    let event = trial_event(&trial(3), 50, ModelType::Complex, None);
    assert_eq!(event.status, "completed");
    assert_eq!(event.model_type, "complex");
    assert_eq!(event.params_json, "{}");
    assert_eq!(trial_status(false), "failed");

    assert!(!skips_fanova(2000));
    assert!(skips_fanova(2001));
    let failed = objective_importance("o".to_string(), 5, None, vec![("lr".to_string(), num(0.5))]);
    assert_eq!(failed.method, ImportanceMethod::SpearmanAfterFailure);
    let capped = objective_importance("o".to_string(), 2001, None, vec![]);
    assert_eq!(capped.method, ImportanceMethod::Spearman);
    let full = objective_importance(
        "o".to_string(),
        5,
        Some(Effects { main_effects: vec![("lr".to_string(), num(0.5))], interactions: num(0.25) }),
        vec![],
    );
    assert_eq!(full.method, ImportanceMethod::Fanova);
    assert!(importance_title(&full).starts_with("  Parameter importance ("));
    let rows = importance_rows(&full, &names(&["50.0"]), "25.0");
    assert_eq!(rows.len(), 2);
    assert_eq!((rows[1].label.as_str(), rows[1].value.as_str()), ("(interactions)", "25.0%"));
    let rows = importance_rows(&capped, &vec![], "");
    assert_eq!(rows[0].label, "(no completed trials)");
}

#[test]
fn lines_of_a_study() {
    assert_eq!(trial_progress_line(3, 50), "\r  Trial 3/50");
    assert!(skipped_fanova_line(2000).is_none());
    assert_eq!(
        skipped_fanova_line(2001).unwrap(),
        "  Parameter importance (Spearman per objective — fANOVA skipped: 2001 trials > cap 2000)"
    );
    let (feasible, front) = front_lines(50, 10, 4, "20.0");
    assert_eq!(feasible, "  Feasible: 10/50 (20.0%)");
    assert_eq!(front, "  Pareto front: 4 configs");
}

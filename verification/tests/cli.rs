//! Command lines, forms and the texts that runs print.

use sparam::base::error::{CoreError, Piece};
use sparam::cli::benchmark::{run, BenchmarkArgs};
use sparam::cli::evaluate::{format_markdown, format_text, PrintedEvaluation, PrintedThreshold};
use sparam::cli::generate::{combine_generate_args, undisplaced_config, GenerateDataArgs};
use sparam::cli::hpo::{combine_hpo_args, HpoArgs};
use sparam::cli::shared::{parse_range, pick, pick_optional, range_parts, OutputFormat};
use sparam::cli::train::{
    combine_train_args, experiment_name, training_run, training_run_at, TrainArgs,
};
use sparam::cli::train_single::{find_variant, variant_run, variant_run_at, SingleArgs};
use sparam::json::{
    doubles_of, json_field, object_text, unsigned_field, write_doubles, JsonValue,
};
use sparam::model::ModelType;
use sparam::paths::{checkpoint_file, run_directory};
use sparam::prng::SimpleRng;
use sparam::scalar::Scalar;
use sparam::text::{
    align_left, align_right, chars_of, decimal, decimal_wide, eq_ignore_ascii_case, hexadecimal,
    join_lines, parse_usize, read_usize, split, to_ascii_lowercase, to_ascii_uppercase, trim,
};
use sparam::workflows::config::{ComplexNorm, ModelConfig};
use sparam::workflows::train_form::TrainSplits;

fn num(value: f64) -> Scalar {
    Scalar::from_bits(value.to_bits())
}

fn val(value: Scalar) -> f64 {
    f64::from_bits(value.bits)
}

fn message(error: &CoreError) -> String {
    let mut text = String::new();
    for piece in error.pieces() {
        match piece {
            Piece::Text(t) => text.push_str(&t),
            Piece::Number(n) => text.push_str(&format!("{}", val(n))),
        }
    }
    text
}

fn parse(input: &str) -> Result<(f64, f64), CoreError> {
    let parts = range_parts(input)?;
    let read = |s: &str| s.parse::<f64>().map(num).map_err(|e| format!("{e}"));
    let (lo, hi) = parse_range(read(&parts.lower), read(&parts.upper))?;
    Ok((val(lo), val(hi)))
}

fn no_splits() -> TrainSplits {
    TrainSplits { train: vec![], val: vec![], test: vec![] }
}

#[test]
fn output_format_default_is_text() {
    assert_eq!(OutputFormat::default(), OutputFormat::Text);
}

#[test]
fn output_format_valid_names_parse_and_display() {
    for (input, variant, display) in [
        ("text", OutputFormat::Text, Some("text")),
        ("TEXT", OutputFormat::Text, None),
        ("json", OutputFormat::Json, Some("json")),
        ("JSON", OutputFormat::Json, None),
        ("markdown", OutputFormat::Markdown, Some("markdown")),
        ("Markdown", OutputFormat::Markdown, None),
        ("md", OutputFormat::Markdown, None),
    ] {
        assert_eq!(OutputFormat::from_name(input).unwrap(), variant, "input: {input:?}");
        if let Some(expected) = display {
            assert_eq!(variant.to_string(), expected);
        }
    }
}

#[test]
fn output_format_from_name_rejects_unknown() {
    let err = OutputFormat::from_name("csv").unwrap_err();
    let msg = err.to_string();
    assert!(msg.contains("unknown output format"), "got: {msg}");
}

#[test]
fn parse_range_accepts_valid_inputs() {
    for (input, expected) in [
        ("1.0,200.0", (1.0, 200.0)),
        (" 0.5 , 3.5 ", (0.5, 3.5)),
        ("5.0,5.0", (5.0, 5.0)),
    ] {
        assert_eq!(parse(input).unwrap(), expected, "input: {input:?}");
    }
}

#[test]
fn parse_range_rejects_invalid_inputs_with_expected_messages() {
    for (input, expected_substring) in [
        ("10.0,1.0", "exceeds"),
        ("42.0", "two comma-separated"),
        ("1,2,3", "two comma-separated"),
        ("abc,2.0", "bad lower bound"),
        ("1.0,xyz", "bad upper bound"),
    ] {
        let err = message(&parse(input).unwrap_err());
        assert!(
            err.contains(expected_substring),
            "input {input:?}: expected err containing {expected_substring:?}, got: {err}",
        );
    }
    assert_eq!(message(&parse("10.0,1.0").unwrap_err()), "lower bound 10 exceeds upper bound 1");
}

#[test]
fn earlier_settings_win() {
    assert_eq!(pick(Some(1), Some(2), 3), 1);
    assert_eq!(pick(None, Some(2), 3), 2);
    assert_eq!(pick(None, None, 3), 3);
    assert_eq!(pick_optional(None, Some(2)), Some(2));
}

#[test]
fn training_settings_combine() {
    let file = TrainArgs {
        model_type: Some("complex".to_string()),
        hidden_size: Some(48),
        lr: Some(num(0.5)),
        ..TrainArgs::default()
    };
    let line = TrainArgs {
        hidden_size: Some(8),
        max_epochs: Some(7),
        shuffle_seed: Some(3),
        ..TrainArgs::default()
    };
    let settings = combine_train_args(&file, &line);
    assert_eq!(settings.model_type, "complex");
    assert_eq!(settings.hidden_size, 48);
    assert_eq!(val(settings.lr), 0.5);
    assert_eq!(val(settings.weight_decay), 1e-4);
    assert_eq!(settings.max_epochs, 7);
    assert_eq!(settings.patience, 30);
    assert_eq!(settings.shuffle_seed, Some(3));
    assert_eq!(settings.scheduler, "cosine");

    assert_eq!(
        experiment_name(&Some("a".to_string()), &Some("b".to_string()), ModelType::Real),
        "a"
    );
    assert_eq!(experiment_name(&None, &None, ModelType::Complex), "complex_train");

    let config = training_run_at(
        settings,
        no_splits(),
        Ok("crelu".to_string()),
        "out/model.safetensors".to_string(),
        None,
        11,
    )
    .unwrap();
    assert_eq!(config.seed, 11);
    assert!(config.log_progress);
    match config.model {
        ModelConfig::Complex { hidden_size, complex_activation, norm, .. } => {
            assert_eq!(hidden_size, 48);
            assert_eq!(complex_activation, "crelu");
            assert_eq!(norm, ComplexNorm::LayerNorm);
        }
        ModelConfig::Real { .. } => panic!("the family was complex"),
    }

    let defaults = combine_train_args(&TrainArgs::default(), &TrainArgs::default());
    let refused = training_run_at(
        defaults,
        no_splits(),
        Err("unknown activation 'x'".to_string()),
        String::new(),
        None,
        1,
    );
    assert_eq!(refused.unwrap_err().to_string(), "unknown activation 'x'");
    let unknown =
        TrainArgs { model_type: Some("octonion".to_string()), ..TrainArgs::default() };
    let settings = combine_train_args(&unknown, &TrainArgs::default());
    let refused =
        training_run_at(settings, no_splits(), Ok("relu".to_string()), String::new(), None, 1);
    assert!(refused.unwrap_err().to_string().contains("octonion"));
}

fn beneath(parts: &[&str]) -> String {
    let path: std::path::PathBuf = parts.iter().collect();
    path.to_string_lossy().into_owned()
}

#[test]
fn weights_are_kept_under_the_name_of_the_experiment() {
    let settings = || {
        let line = TrainArgs { output_dir: Some("runs".to_string()), ..TrainArgs::default() };
        combine_train_args(&TrainArgs::default(), &line)
    };
    let planned = |line: Option<&str>, file: Option<&str>| {
        let (line, file) = (line.map(str::to_string), file.map(str::to_string));
        let activation = Ok("relu".to_string());
        training_run(settings(), no_splits(), activation, &line, &file, None, 1)
            .unwrap()
            .checkpoint_path
            .unwrap()
    };
    assert_eq!(planned(None, None), beneath(&["runs", "real_train", "model.safetensors"]));
    assert_eq!(planned(None, Some("b")), beneath(&["runs", "b", "model.safetensors"]));
    assert_eq!(planned(Some("a"), Some("b")), beneath(&["runs", "a", "model.safetensors"]));
    assert_eq!(run_directory("runs", "a"), beneath(&["runs", "a"]));
    assert_eq!(checkpoint_file("runs", "a"), planned(Some("a"), None));
    let refused =
        training_run(settings(), no_splits(), Err("none".to_string()), &None, &None, None, 1);
    assert_eq!(refused.unwrap_err().to_string(), "none");
}

#[test]
fn study_settings_combine() {
    let file = HpoArgs {
        study_name: Some("from_file".to_string()),
        n_trials: Some(5),
        ..HpoArgs::default()
    };
    let line = HpoArgs {
        study_name: Some("from_line".to_string()),
        n_trials: Some(9),
        ..HpoArgs::default()
    };
    let settings = combine_hpo_args(&file, &line);
    assert_eq!(settings.study_name, "from_line");
    assert_eq!(settings.n_trials, 5);
    assert_eq!(settings.max_epochs, 25);
    assert_eq!(settings.model_type, "real");
}

#[test]
fn dataset_settings_combine() {
    let file = GenerateDataArgs { grid_nx: Some(20), ..GenerateDataArgs::default() };
    let line = GenerateDataArgs {
        grid_nx: Some(1),
        grid_ny: Some(10),
        frequency: Some(num(9e9)),
        ..GenerateDataArgs::default()
    };
    let config = combine_generate_args(&file, &line, 5);
    assert_eq!((config.n_eps_prime_train, config.n_eps_double_prime_train), (20, 10));
    assert_eq!(val(config.frequency), 9e9);
    assert_eq!(val(config.d), 1.5e-3);
    assert_eq!(val(config.a), 22.86e-3);
    assert_eq!(config.seed, 5);
}

#[test]
fn variants_by_name() {
    assert!(find_variant("cvnn_both").unwrap().complex);
    assert_eq!(find_variant("rvnn_pi").unwrap().seed, 43);
    assert_eq!(
        find_variant("dnn").unwrap_err().to_string(),
        "Unknown model variant: dnn"
    );
    let args = SingleArgs {
        seed: 42,
        epochs: 100,
        physics_lambda: None,
        input_noise_std: None,
        loss: None,
        verbose: false,
    };
    let config = variant_run("rvnn_noise", args, no_splits(), "w").unwrap();
    assert_eq!(config.checkpoint_path, Some(beneath(&["w", "rvnn_noise", "model.safetensors"])));
    assert_eq!(config.seed, 44);
    assert_eq!(config.patience, 10);
    assert_eq!(val(config.input_noise_std.unwrap()), 0.007933403759394204);
    assert_eq!(val(config.lr), 0.012305018392414956);
    assert_eq!(val(config.weight_decay), 9.940853574579717e-7);
    assert_eq!(val(config.cosine_eta_min.unwrap()), 4.34544151503091e-6);
    assert_eq!(config.loss, "eps_rel_mse");
    let args = SingleArgs {
        seed: 7,
        epochs: 5,
        physics_lambda: None,
        input_noise_std: Some(num(0.25)),
        loss: Some("mse".to_string()),
        verbose: true,
    };
    let config = variant_run_at("cvnn_base", args, no_splits(), "w".to_string()).unwrap();
    assert_eq!(config.checkpoint_path.as_deref(), Some("w"));
    assert_eq!(config.seed, 7);
    assert_eq!(config.patience, 0);
    assert_eq!(val(config.input_noise_std.unwrap()), 0.25);
    match config.model {
        ModelConfig::Complex { dropout, .. } => assert_eq!(val(dropout), 0.0004071689035540895),
        ModelConfig::Real { .. } => panic!("the variant is complex"),
    }
}

#[test]
fn benchmarks_are_planned_for_known_formats() {
    let args = BenchmarkArgs {
        suite: "all".to_string(),
        iterations: 3,
        output_dir: "out".to_string(),
        criterion: false,
        format: "MD".to_string(),
    };
    let (config, format) = run(&args, 42).unwrap();
    assert_eq!(config.suite, "all");
    assert_eq!(config.seed, 42);
    assert_eq!(format, OutputFormat::Markdown);
    let args = BenchmarkArgs { format: "yaml".to_string(), ..args };
    assert_eq!(
        run(&args, 42).unwrap_err().to_string(),
        "unknown output format 'yaml', expected: text, json, markdown"
    );
}

#[test]
fn evaluations_are_printed() {
    let printed = PrintedEvaluation {
        model: "m.safetensors".to_string(),
        test_samples: 4,
        thresholds: vec![PrintedThreshold {
            threshold: "1".to_string(),
            percent: "75.00".to_string(),
            ok_count: 3,
        }],
        mean_error: "0.50".to_string(),
        max_error: "2.00".to_string(),
        min_error: "0.10".to_string(),
        std_error: "0.20".to_string(),
        r2_real: "0.9990".to_string(),
        r2_imag: "0.9980".to_string(),
    };
    let text = format_text(&printed);
    assert!(text.contains("Evaluation Results: m.safetensors\n"), "{text}");
    assert!(text.contains("  OK@1%: 75.00% (3/4)"), "{text}");
    assert!(text.contains("  Std:   0.20%"), "{text}");
    let table = format_markdown(&printed);
    assert!(table.contains("| OK@1% | 75.00% (3/4) |"), "{table}");
    assert!(table.contains("| Max Error | 2.00% |"), "{table}");
}

#[test]
fn texts() {
    assert_eq!(chars_of("añb"), vec!['a', 'ñ', 'b']);
    assert_eq!(trim(" \t x\u{a0}"), "x");
    assert_eq!(split("a,,b", ','), vec!["a", "", "b"]);
    assert_eq!(split("", ','), vec![""]);
    assert_eq!(to_ascii_lowercase("ÀBc"), "Àbc");
    assert_eq!(to_ascii_uppercase("aé1"), "Aé1");
    assert!(eq_ignore_ascii_case("MD", "md"));
    assert_eq!(decimal(0), "0");
    assert_eq!(decimal(u64::MAX), format!("{}", u64::MAX));
    assert_eq!(decimal_wide(u128::MAX), format!("{}", u128::MAX));
    assert_eq!(hexadecimal(0xbeef, 16), format!("{:016x}", 0xbeefu64));
    assert_eq!(align_left("ab", 4), format!("{:<4}", "ab"));
    assert_eq!(align_right("ab", 4), format!("{:>4}", "ab"));
    assert_eq!(align_left("abcde", 4), "abcde");
    assert_eq!(join_lines(&vec!["a".to_string(), "b".to_string()]), "a\nb");
}

#[test]
fn whole_numbers_are_read_like_the_standard_library_does() {
    for text in [
        "0", "7", "+7", "007", "", "-", "+", "-1", "1.5", " 1", "18446744073709551615",
        "18446744073709551616", "x",
    ] {
        let expected = text.parse::<usize>();
        assert_eq!(parse_usize(text), expected.clone().ok(), "{text:?}");
        assert_eq!(read_usize(text), expected.map_err(|e| format!("{e}")), "{text:?}");
    }
}

#[test]
fn settings_are_written_as_an_object_and_read_back() {
    let fields = vec![
        json_field("name", JsonValue::Text("a \"b\"".to_string())),
        json_field("steps", JsonValue::Integer(u64::MAX)),
    ];
    let text = object_text(&fields).unwrap();
    assert_eq!(text, "{\"name\":\"a \\\"b\\\"\",\"steps\":18446744073709551615}");
    assert_eq!(unsigned_field(&text, "steps"), Some(u64::MAX));
    assert_eq!(unsigned_field(&text, "name"), None);
    assert_eq!(unsigned_field(&text, "missing"), None);
    assert_eq!(unsigned_field("{", "steps"), None);
}

#[test]
fn doubles_are_written_out_in_their_places() {
    let half = Scalar::from_bits(0.5f64.to_bits());
    let fields = vec![
        json_field("rate", JsonValue::double(half)),
        json_field("on", JsonValue::optional_flag(Some(true))),
        json_field("none", JsonValue::optional_double(None)),
        json_field("beyond", JsonValue::double(Scalar::from_bits(f64::INFINITY.to_bits()))),
        json_field("count", JsonValue::optional_integer(Some(3))),
    ];
    assert_eq!(doubles_of(&fields), vec![Some(half), None, None, None, None]);
    let texts: Vec<String> =
        ["5e-1", "x", "", "", "9"].iter().map(|text| text.to_string()).collect();
    let text = object_text(&write_doubles(fields, &texts)).unwrap();
    assert_eq!(text, "{\"beyond\":null,\"count\":3,\"none\":null,\"on\":true,\"rate\":0.5}");
    assert_eq!(unsigned_field(&text, "count"), Some(3));
    assert!(object_text(&vec![json_field("rate", JsonValue::Number("half".to_string()))]).is_err());
}

#[test]
fn the_small_generator_is_deterministic() {
    let mut a = SimpleRng::new(9);
    let mut b = SimpleRng::new(9);
    let first: Vec<u64> = (0..4).map(|_| a.next_u64()).collect();
    let second: Vec<u64> = (0..4).map(|_| b.next_u64()).collect();
    assert_eq!(first, second);
    assert_ne!(first[0], first[1]);
    assert_eq!(SimpleRng::new(1).next_u64(), 1082269761);
    assert_eq!(SimpleRng::new(0), SimpleRng::new(42));
}

#[test]
fn undisplaced_splits() {
    let config = undisplaced_config();
    assert_eq!(config.val_offset, (Scalar::zero(), Scalar::zero()));
    assert_eq!(config.test_offset, (Scalar::zero(), Scalar::zero()));
    assert_eq!((config.n_eps_prime_train, config.n_eps_double_prime_train), (200, 100));
    assert_eq!(f64::from_bits(config.frequency.bits), 8.2e9);
    assert_eq!(config.seed, 42);
}

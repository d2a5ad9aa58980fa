//! Planned grids, generated datasets and their CSV files.

use std::collections::HashSet;

use sparam::base::error::{CoreError, Piece};
use sparam::base::s_params::S11S21;
use sparam::data::csv_table::{
    find_column, parse_record_value, read_table, write_table, Reading, TableUse,
};
use sparam::data::generation::{
    check_grid_bounds, collect_dataset, data_generation_header, dataset_stats, grid_pairs,
    holdout_grid_dims, make_samples, plan_grids, read_samples, sample_csv_headers, samples_from_records,
    samples_to_matrix, training_grid_size, validate_config, validate_csv_tensor_shape, write_samples,
    DataGenerationConfig, GeneratedDataset, GenerationTexts, GridRequest, PermittivitySample,
    RecordReading, Split,
};
use sparam::scalar::Scalar;
use sparam::workflows::generate::{in_memory_result, manifest, run_result};

fn num(value: f64) -> Scalar {
    Scalar::from_bits(value.to_bits())
}

fn val(value: Scalar) -> f64 {
    f64::from_bits(value.bits)
}

fn pair(values: (f64, f64)) -> (Scalar, Scalar) {
    (num(values.0), num(values.1))
}

fn message(error: &CoreError) -> String {
    let mut text = String::new();
    for piece in error.pieces() {
        match piece {
            Piece::Text(t) => text.push_str(&t),
            Piece::Number(n) => text.push_str(&format!("{}", val(n))),
        }
    }
    text
}

fn linspace(start: f64, end: f64, n: usize) -> Vec<Scalar> {
    if n == 1 {
        return vec![num((start as f32) as f64)];
    }
    let (start, end) = (start as f32, end as f32);
    let step = (end - start) / (n as f32 - 1.0);
    (0..n)
        .map(|i| {
            if i <= (n - 1) / 2 {
                num((start + step * i as f32) as f64)
            } else {
                num((end - step * (n - 1 - i) as f32) as f64)
            }
        })
        .collect()
}

fn holdout(config: &DataGenerationConfig) -> Result<(usize, usize), CoreError> {
    let n_train = training_grid_size(config)? as f64;
    let ratio = val(config.train_ratio);
    let target = ((1.0 - ratio) / 2.0 * n_train / ratio).trunc();
    let side = (target / 2.0).sqrt().trunc() as usize;
    holdout_grid_dims(num(target), side)
}

fn points(request: &GridRequest) -> Result<Vec<(Scalar, Scalar)>, CoreError> {
    let bounds = |range: (Scalar, Scalar), offset: Scalar| {
        (val(range.0) + val(offset), val(range.1) - val(offset))
    };
    let first = bounds(request.eps_prime_range, request.offset.0);
    let second = bounds(request.eps_double_prime_range, request.offset.1);
    check_grid_bounds(request, pair(first), pair(second))?;
    grid_pairs(
        &linspace(first.0, first.1, request.n_eps_prime),
        &linspace(second.0, second.1, request.n_eps_double_prime),
    )
}

/// A dataset whose S-parameters are a plain function of the permittivity.
fn generate(config: &DataGenerationConfig) -> Result<GeneratedDataset, CoreError> {
    validate_config(config, None)?;
    let plan = plan_grids(config, holdout(config)?);
    let mut samples = Vec::new();
    for request in &plan {
        let grid = points(request)?;
        let scattering: Vec<S11S21> = grid
            .iter()
            .map(|p| {
                let (re, im) = (val(p.0), val(p.1));
                S11S21::new(num(re / 400.0), num(im / -400.0), num(0.5 / re), num(0.25 / (1.0 + im)))
            })
            .collect();
        samples.push(make_samples(&grid, &scattering, request.dense_patch));
    }
    Ok(collect_dataset(config, &plan, &samples))
}

fn csv_rows(samples: &[PermittivitySample]) -> Vec<Vec<String>> {
    samples
        .iter()
        .map(|s| {
            [s.s11_real, s.s11_imag, s.s21_real, s.s21_imag, s.eps_prime, s.eps_double_prime]
                .iter()
                .map(|v| format!("{}", val(*v)))
                .collect()
        })
        .collect()
}

fn load(bytes: &[u8]) -> Result<Vec<PermittivitySample>, CoreError> {
    let (columns, table) = read_samples(bytes, TableUse::Samples)?;
    let records: Vec<RecordReading> = table
        .records
        .into_iter()
        .map(|record| {
            record.map(|fields| {
                fields
                    .iter()
                    .map(|f| f.trim().parse::<f64>().map(num).map_err(|e| format!("{e}")))
                    .collect::<Vec<Reading>>()
            })
        })
        .collect();
    samples_from_records(&columns, &records, TableUse::Samples)
}

fn coordinates(samples: &[PermittivitySample]) -> HashSet<(u64, u64)> {
    samples.iter().map(|s| (s.eps_prime.bits, s.eps_double_prime.bits)).collect()
}

#[test]
fn test_default_dataset_sizes_match_spec() {
    let dataset = generate(&DataGenerationConfig::default()).unwrap();

    assert_eq!(dataset.train.len(), 20_000);
    assert_eq!(dataset.validation.len(), 2_450);
    assert_eq!(dataset.test.len(), 2_450);
    assert_eq!(dataset.total_samples(), 24_900);
}

#[test]
fn test_training_samples_follow_python_meshgrid_order() {
    let config = DataGenerationConfig {
        eps_prime_range: pair((1.0, 3.0)),
        eps_double_prime_range: pair((0.0, 1.0)),
        n_eps_prime_train: 3,
        n_eps_double_prime_train: 2,
        train_ratio: num(0.5),
        val_offset: pair((0.2, 0.1)),
        test_offset: pair((0.4, 0.2)),
        ..DataGenerationConfig::default()
    };
    let dataset = generate(&config).unwrap();
    let coordinates: Vec<(f64, f64)> =
        dataset.train.iter().map(|s| (val(s.eps_prime), val(s.eps_double_prime))).collect();

    assert_eq!(
        coordinates,
        vec![(1.0, 0.0), (1.0, 1.0), (2.0, 0.0), (2.0, 1.0), (3.0, 0.0), (3.0, 1.0)]
    );
}

#[test]
fn test_train_validation_and_test_grids_do_not_overlap() {
    let dataset = generate(&DataGenerationConfig::default()).unwrap();

    let train_points = coordinates(&dataset.train);
    let validation_points = coordinates(&dataset.validation);
    let test_points = coordinates(&dataset.test);

    assert!(train_points.is_disjoint(&validation_points));
    assert!(train_points.is_disjoint(&test_points));
    assert!(validation_points.is_disjoint(&test_points));
}

#[test]
fn test_generated_dataset_csv_round_trip() {
    let config = DataGenerationConfig {
        n_eps_prime_train: 6,
        n_eps_double_prime_train: 4,
        train_ratio: num(0.6),
        val_offset: pair((0.15, 0.05)),
        test_offset: pair((0.35, 0.15)),
        ..DataGenerationConfig::default()
    };
    let dataset = generate(&config).unwrap();

    let bytes = write_samples(csv_rows(&dataset.train)).unwrap();
    let header = String::from_utf8(bytes.clone()).unwrap();
    assert_eq!(
        header.lines().next().expect("generated CSV should contain a header row"),
        "S11_real,S11_imag,S21_real,S21_imag,eps_prim,eps_secund"
    );

    assert_eq!(load(&bytes).unwrap(), dataset.train);
    assert_eq!(
        load(&write_samples(csv_rows(&dataset.validation)).unwrap()).unwrap(),
        dataset.validation
    );
    assert_eq!(load(&write_samples(csv_rows(&dataset.test)).unwrap()).unwrap(), dataset.test);
}

#[test]
fn test_load_from_csv_round_trips_tensor_data() {
    let data = [0.1f64, -0.2, 0.3, -0.4, 2.5, 0.15, -0.5, 0.6, -0.7, 0.8, 7.5, 1.25];
    assert_eq!(validate_csv_tensor_shape(&[2, 6]).unwrap(), 2);
    let fields: Vec<Vec<String>> =
        data.chunks(6).map(|row| row.iter().map(|v| format!("{v}")).collect()).collect();

    let loaded = samples_to_matrix(&load(&write_samples(fields).unwrap()).unwrap());

    assert_eq!(loaded.dims, vec![2, 6]);
    let values: Vec<f64> = loaded.values.iter().map(|v| val(*v)).collect();
    assert_eq!(values, data.to_vec());
}

#[test]
fn test_save_to_csv_rejects_non_matrix_or_wrong_column_count() {
    let vector_error =
        validate_csv_tensor_shape(&[3]).expect_err("1D tensors should be rejected");
    let wrong_columns_error = validate_csv_tensor_shape(&[1, 4])
        .expect_err("tensors without 6 columns should be rejected");

    assert!(vector_error.to_string().contains("shape (N, 6)"));
    assert!(wrong_columns_error.to_string().contains("shape (N, 6)"));
}

#[test]
fn test_print_functions_do_not_panic() {
    let config = DataGenerationConfig {
        n_eps_prime_train: 8,
        n_eps_double_prime_train: 4,
        train_ratio: num(0.5),
        ..DataGenerationConfig::default()
    };

    let header = data_generation_header(&GenerationTexts {
        width_mm: format!("{:.2}", val(config.a) * 1e3),
        thickness_mm: format!("{:.2}", val(config.d) * 1e3),
        frequency_ghz: format!("{:.2}", val(config.frequency) / 1e9),
        eps_prime: ("1.0".to_string(), "200.0".to_string()),
        eps_double_prime: ("0.0".to_string(), "100.0".to_string()),
    });
    assert_eq!(header[0], "Generating non-magnetic material dataset...");
    assert_eq!(header[1], "  Waveguide: a=22.86mm, d=1.50mm, f=8.20GHz");
    assert_eq!(
        header[2],
        "  Permittivity domain: eps' in [1.0, 200.0], eps'' in [0.0, 100.0]"
    );
    let dataset = generate(&config).unwrap();
    let total = dataset.total_samples() as f64;
    let percent = |n: usize| format!("{:.2}", n as f64 * 100.0 / total);
    let lines = dataset_stats(
        &dataset,
        &(
            percent(dataset.train.len()),
            percent(dataset.validation.len()),
            percent(dataset.test.len()),
        ),
    );
    assert!(lines.iter().any(|l| l.contains("Training:       32 samples")), "{lines:?}");
}

#[test]
fn patches_are_marked_and_follow_the_bulk() {
    let config = DataGenerationConfig {
        n_eps_prime_train: 8,
        n_eps_double_prime_train: 4,
        dense_patch_n_train: (3, 2),
        dense_patch_n_eval: (2, 1),
        ..DataGenerationConfig::default()
    };
    let dataset = generate(&config).unwrap();
    assert_eq!(dataset.train.len(), 32 + 6);
    assert!(dataset.train[..32].iter().all(|s| !s.is_dense_patch));
    assert!(dataset.train[32..].iter().all(|s| s.is_dense_patch));
    assert_eq!(dataset.test.iter().filter(|s| s.is_dense_patch).count(), 2);

    let counts = run_result(&dataset);
    assert_eq!(counts.train_samples, 38);
    let record = manifest(&config, &dataset);
    assert_eq!((record.grid_nx, record.grid_ny), (8, 4));
    assert_eq!(record.seed, 42);
    assert_eq!(in_memory_result(dataset).train.len(), 38);
}

#[test]
fn plans_name_their_splits() {
    let plan = plan_grids(&DataGenerationConfig::default(), (70, 35));
    let splits: Vec<Split> = plan.iter().map(|g| g.split).collect();
    assert_eq!(splits, vec![Split::Train, Split::Validation, Split::Test]);
    assert_eq!(plan[1].n_eps_prime, 70);
    assert_eq!(plan[2].offset, pair((0.5, 0.25)));
    assert_eq!(holdout(&DataGenerationConfig::default()).unwrap(), (70, 35));
}

#[test]
fn bad_configurations_are_named() {
    let good = DataGenerationConfig::default();
    assert!(validate_config(&good, None).is_ok());
    assert_eq!(
        message(&validate_config(&good, Some("width")).unwrap_err()),
        "invalid waveguide config: width"
    );
    let config = DataGenerationConfig { train_ratio: num(1.0), ..good };
    assert_eq!(
        message(&validate_config(&config, None).unwrap_err()),
        "train_ratio must be in the open interval (0, 1), got 1"
    );
    let config = DataGenerationConfig { n_eps_prime_train: 0, ..good };
    assert!(validate_config(&config, None).is_err());
    let config = DataGenerationConfig { val_offset: pair((-0.1, 0.0)), ..good };
    assert!(message(&validate_config(&config, None).unwrap_err()).contains("val_offset.eps_prime"));
    let config = DataGenerationConfig { n_eps_prime_train: usize::MAX, ..good };
    assert_eq!(
        training_grid_size(&config).unwrap_err().to_string(),
        "training grid size overflowed usize"
    );
    assert_eq!(
        message(&holdout_grid_dims(num(0.0), 0).unwrap_err()),
        "derived holdout size must be finite and positive, got 0"
    );
    assert_eq!(
        holdout_grid_dims(num(1.0), usize::MAX).unwrap_err().to_string(),
        "holdout grid width overflowed usize"
    );
    assert_eq!(holdout_grid_dims(num(1.0), 0).unwrap(), (2, 1));
    let config = DataGenerationConfig {
        eps_prime_range: pair((1.0, 1.5)),
        val_offset: pair((0.5, 0.1)),
        ..good
    };
    let plan = plan_grids(&config, (2, 1));
    assert_eq!(
        message(&points(&plan[1]).unwrap_err()),
        "eps_prime offset 0.5 collapses the range (1, 1.5)"
    );
}

#[test]
fn tables_are_read_by_header() {
    let text = "eps_secund, EPS_PRIM ,s21_imag,s21_real,s11_imag,s11_real\n6,5,4,3,2,1\n";
    let samples = load(text.as_bytes()).unwrap();
    assert_eq!(samples.len(), 1);
    assert_eq!(val(samples[0].s11_real), 1.0);
    assert_eq!(val(samples[0].eps_double_prime), 6.0);
    assert!(!samples[0].is_dense_patch);

    let missing = load(b"s11_real,s11_imag\n1,2\n").unwrap_err();
    assert_eq!(message(&missing), "missing required CSV column 's21_real'");

    let bad = "S11_real,S11_imag,S21_real,S21_imag,eps_prim,eps_secund\n1,2,3,4,five,6\n";
    assert_eq!(
        message(&load(bad.as_bytes()).unwrap_err()),
        "failed to parse column 'eps_prim' on row 2: invalid float literal"
    );

    let ragged = "S11_real,S11_imag,S21_real,S21_imag,eps_prim,eps_secund\n1,2\n";
    assert!(message(&load(ragged.as_bytes()).unwrap_err())
        .starts_with("failed to read CSV record: "));
}

#[test]
fn tables_quote_what_needs_it() {
    let rows = vec![
        vec!["a".to_string(), "b".to_string()],
        vec!["x,y".to_string(), "say \"z\"".to_string()],
    ];
    let bytes = write_table(&rows).unwrap();
    assert_eq!(String::from_utf8(bytes.clone()).unwrap(), "a,b\n\"x,y\",\"say \"\"z\"\"\"\n");
    let table = read_table(&bytes, TableUse::Samples).unwrap();
    assert_eq!(table.headers, vec!["a".to_string(), "b".to_string()]);
    assert_eq!(table.records[0].as_ref().unwrap(), &rows[1]);
    assert_eq!(find_column(&table.headers, "B", TableUse::Samples).unwrap(), 1);
    let short: Vec<Reading> = vec![Ok(num(1.0))];
    assert_eq!(
        message(&parse_record_value(&short, 1, 7, "b", TableUse::Samples).unwrap_err()),
        "missing value for column 'b' on row 7"
    );
    assert_eq!(sample_csv_headers()[5], "eps_secund");
}

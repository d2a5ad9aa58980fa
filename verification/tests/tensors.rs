//! Tensors, complex tensors and the initial values of model variables.

use rand::RngExt;
use sparam::base::determinism::{
    clip_decision, fill_for, hash_line, reinit_plan, split_last_dot, Fill, InitStep, Role, VarShape,
};
use sparam::base::rng::{get_seeded_rng, SeedState};
use sparam::data::complex_tensor::{
    as_complex_f64, check_atan2_operands, device_name, ensure_same_device, ComplexTensor,
};
use sparam::data::tensor::{
    join_columns, join_rows, matrix, narrow_columns, narrow_rows, select_rows, DType, Device, Tensor,
};
use sparam::scalar::Scalar;

fn num(value: f64) -> Scalar {
    Scalar::from_bits(value.to_bits())
}

fn vals(values: &[Scalar]) -> Vec<f64> {
    values.iter().map(|v| f64::from_bits(v.bits)).collect()
}

fn tensor(dims: &[usize], values: &[f64], dtype: DType) -> Tensor {
    Tensor {
        dims: dims.to_vec(),
        values: values.iter().map(|v| num(*v)).collect(),
        dtype,
        device: Device::Cpu,
    }
}

fn vector(values: &[f64]) -> Tensor {
    tensor(&[values.len()], values, DType::F32)
}

fn var(name: &str, dims: &[usize]) -> VarShape {
    VarShape { name: name.to_string(), dims: dims.to_vec() }
}

const MOD_RELU_DEFAULT_BIAS: f64 = -0.1;

/// Draws the values of each planned step from one seeded generator.
fn initial_values(vars: Vec<VarShape>, seed: u64) -> Vec<(String, Vec<f64>)> {
    let mut rng = get_seeded_rng(&SeedState { seed, generation: 0 });
    let (_, steps) = reinit_plan(vars);
    let mut filled = Vec::new();
    for InitStep { name, elem_count, fill, .. } in steps {
        let values: Vec<f64> = match fill {
            Fill::Uniform { fan_in } => {
                let bound = (1.0f64 / fan_in as f64).sqrt();
                (0..elem_count).map(|_| rng.random_range(-bound..bound)).collect()
            }
            Fill::Normal { fan_in } => {
                let sigma = (1.0f64 / fan_in as f64).sqrt();
                (0..elem_count)
                    .map(|_| {
                        let u: f64 = 1.0 - rng.random::<f64>();
                        let v: f64 = rng.random();
                        (-2.0 * u.ln()).sqrt() * (2.0 * std::f64::consts::PI * v).cos() * sigma
                    })
                    .collect()
            }
            Fill::Constant(value) => vec![f64::from_bits(value.bits); elem_count],
        };
        filled.push((name, values));
    }
    filled
}

fn values_of(filled: &[(String, Vec<f64>)], name: &str) -> Vec<f64> {
    filled.iter().find(|entry| entry.0 == name).unwrap().1.clone()
}

fn variance(values: &[f64]) -> f64 {
    let n = values.len() as f64;
    let mean = values.iter().sum::<f64>() / n;
    values.iter().map(|v| (v - mean).powi(2)).sum::<f64>() / n
}

#[test]
fn reinit_is_deterministic_for_same_seed() {
    let vars = || vec![var("layer.weight", &[4, 3]), var("layer.bias", &[4])];
    let a = initial_values(vars(), 42);
    let b = initial_values(vars(), 42);
    assert_eq!(values_of(&a, "layer.weight"), values_of(&b, "layer.weight"));

    let other_order = vec![var("layer.bias", &[4]), var("layer.weight", &[4, 3])];
    assert_eq!(initial_values(other_order, 42), a);
}

#[test]
fn reinit_differs_for_different_seeds() {
    let a = initial_values(vec![var("layer.weight", &[4, 3])], 42);
    let b = initial_values(vec![var("layer.weight", &[4, 3])], 43);
    assert_ne!(values_of(&a, "layer.weight"), values_of(&b, "layer.weight"));
}

#[test]
fn real_linear_weight_uses_kaiming_uniform() {
    let filled = initial_values(vec![var("fc.weight", &[50, 100])], 42);
    let w = values_of(&filled, "fc.weight");
    assert_eq!(w.len(), 5000);
    let bound = 0.1_f64;
    for &v in &w {
        assert!(v.abs() <= bound + 1e-12, "value {v} outside Kaiming bound");
    }
    let expected = bound * bound / 3.0;
    let found = variance(&w);
    assert!((found - expected).abs() < 0.2 * expected, "empirical var {found}");
}

#[test]
fn complex_linear_weights_use_trabelsi_he_gaussian() {
    let filled = initial_values(
        vec![var("cl.weight_re", &[64, 128]), var("cl.weight_im", &[64, 128])],
        42,
    );
    for key in ["cl.weight_re", "cl.weight_im"] {
        let found = variance(&values_of(&filled, key));
        let target = 1.0 / 128.0;
        assert!((found - target).abs() < 0.25 * target, "{key} empirical var {found}");
    }
}

#[test]
fn norm_gamma_is_ones_and_beta_is_zeros() {
    let filled = initial_values(vec![var("ln.weight", &[8]), var("ln.bias", &[8])], 42);
    assert_eq!(values_of(&filled, "ln.weight"), vec![1.0; 8]);
    assert_eq!(values_of(&filled, "ln.bias"), vec![0.0; 8]);
}

#[test]
fn modrelu_bias_defaults_to_negative_zero_point_one() {
    let filled = initial_values(vec![var("modrelu.bias", &[5])], 42);
    assert_eq!(values_of(&filled, "modrelu.bias"), vec![MOD_RELU_DEFAULT_BIAS; 5]);
}

#[test]
fn linear_bias_uses_sibling_weight_fan_in() {
    let filled = initial_values(vec![var("fc.weight", &[4, 100]), var("fc.bias", &[4])], 42);
    let b = values_of(&filled, "fc.bias");
    assert_eq!(b.len(), 4);
    for v in &b {
        assert!(v.abs() <= 0.1 + 1e-12);
    }
}

#[test]
fn complex_linear_bias_uses_sibling_weight_fan_in() {
    let filled = initial_values(
        vec![
            var("cl.weight_re", &[4, 64]),
            var("cl.weight_im", &[4, 64]),
            var("cl.bias_re", &[4]),
            var("cl.bias_im", &[4]),
        ],
        42,
    );
    let bound = 1.0f64 / 64.0f64.sqrt();
    for k in ["cl.bias_re", "cl.bias_im"] {
        let b = values_of(&filled, k);
        assert_eq!(b.len(), 4);
        for v in &b {
            assert!(v.abs() <= bound + 1e-12);
        }
    }
}

#[test]
fn variables_are_walked_by_name_and_empty_ones_passed_over() {
    let (sorted, steps) = reinit_plan(vec![
        var("b.weight", &[2, 3]),
        var("a.scale", &[2]),
        var("b.empty", &[0, 4]),
        var("B.weight_re", &[7]),
    ]);
    let names: Vec<&str> = sorted.iter().map(|v| v.name.as_str()).collect();
    assert_eq!(names, vec!["B.weight_re", "a.scale", "b.empty", "b.weight"]);
    let planned: Vec<(&str, usize, Role)> =
        steps.iter().map(|s| (s.name.as_str(), s.elem_count, s.role)).collect();
    assert_eq!(
        planned,
        vec![
            ("B.weight_re", 7, Role::Unknown),
            ("a.scale", 2, Role::Unknown),
            ("b.weight", 6, Role::LinearWeight { fan_in: 3 }),
        ]
    );
    let listed_otherwise = reinit_plan(vec![
        var("B.weight_re", &[7]),
        var("b.empty", &[0, 4]),
        var("b.weight", &[2, 3]),
        var("a.scale", &[2]),
    ]);
    let again: Vec<(&str, usize, Role)> =
        listed_otherwise.1.iter().map(|s| (s.name.as_str(), s.elem_count, s.role)).collect();
    assert_eq!(planned, again);
    assert_eq!(fill_for(Role::LinearBias { fan_in: 0 }), Fill::Uniform { fan_in: 1 });
    assert_eq!(fill_for(Role::ComplexLinearWeight { fan_in: 5 }), Fill::Normal { fan_in: 5 });
    assert_eq!(fill_for(Role::ModReLUBias), Fill::Constant(num(MOD_RELU_DEFAULT_BIAS)));
    assert_eq!(split_last_dot("a.b.c"), ("a.b".to_string(), "c".to_string()));
    assert_eq!(split_last_dot("plain"), (String::new(), "plain".to_string()));
}

#[test]
fn gradients_are_clipped_above_the_limit_only() {
    assert!(clip_decision(num(2.0), num(1.0)).unwrap());
    assert!(!clip_decision(num(1.0), num(1.0)).unwrap());
    assert!(clip_decision(num(f64::NAN), num(1.0)).is_err());
    assert!(clip_decision(num(f64::INFINITY), num(1.0)).is_err());
    assert_eq!(hash_line("epoch 1", 0xab), "[varmap hash] epoch 1 = 0x00000000000000ab");
}

#[test]
fn all_operations() {
    let z1 = ComplexTensor::new(vector(&[3.0]), vector(&[4.0])).unwrap();

    let neg = z1.neg();
    assert_eq!(vals(&neg.real.values), &[-3.0]);
    assert_eq!(vals(&neg.imag.values), &[-4.0]);

    let conj = z1.conj();
    assert_eq!(vals(&conj.real.values), &[3.0]);
    assert_eq!(vals(&conj.imag.values), &[-4.0]);

    let (re, im) = z1.to_pair();
    let into_conj = ComplexTensor::new_unchecked(re, im).into_conj();
    assert_eq!(vals(&into_conj.real.values), &[3.0]);
    assert_eq!(vals(&into_conj.imag.values), &[-4.0]);
}

#[test]
fn constructor_shape_mismatch() {
    let r = vector(&[1.0, 2.0]);
    let i = vector(&[3.0, 4.0, 5.0]);
    let err = ComplexTensor::new(r, i).err().unwrap();
    assert!(err.to_string().to_lowercase().contains("shape mismatch"));
}

#[test]
fn edge_cases() {
    let zero = ComplexTensor::from_real(vector(&[0.0, 0.0]));
    assert_eq!(vals(&zero.real.values), &[0.0, 0.0]);

    let real_only = ComplexTensor::from_real(vector(&[5.0, -3.0]));
    assert_eq!(vals(&real_only.imag.values), &[0.0, 0.0]);

    let z = ComplexTensor::new(vector(&[3.0]), vector(&[4.0])).unwrap();
    let double_conj = z.conj().conj();
    assert_eq!(vals(&double_conj.real.values), &[3.0]);
    assert_eq!(vals(&double_conj.imag.values), &[4.0]);
}

#[test]
fn pair_accessors() {
    let c = ComplexTensor::new(vector(&[1.0, 2.0]), vector(&[3.0, 4.0])).unwrap();

    let (rr, ii) = c.as_pair();
    assert_eq!(vals(&rr.values), &[1.0, 2.0]);
    assert_eq!(vals(&ii.values), &[3.0, 4.0]);

    let (r2, i2) = c.into_pair();
    assert_eq!(vals(&r2.values), &[1.0, 2.0]);
    assert_eq!(vals(&i2.values), &[3.0, 4.0]);
}

#[test]
fn parts_must_agree_in_place_and_element_type() {
    let single = vector(&[1.0]);
    let double = tensor(&[1], &[1.0], DType::F64);
    assert!(ComplexTensor::new(single.copied(), double).is_err());
    let mut elsewhere = vector(&[1.0]);
    elsewhere.device = Device::Cuda(1);
    assert!(ComplexTensor::from_pair((single.copied(), elsewhere)).is_err());
    let whole = ComplexTensor::from_imag(single);
    assert_eq!(vals(&whole.real.values), &[0.0]);
    assert_eq!(whole.dtype(), DType::F32);
    assert_eq!(whole.device(), Device::Cpu);
    assert_ne!(device_name(Device::Cpu), device_name(Device::Cuda(0)));
    assert_eq!(device_name(Device::Cuda(3)), "Cuda(CudaDevice(DeviceId(3)))");
    assert_eq!(device_name(Device::Metal(1)), "Metal(MetalDevice(DeviceId(1)))");
}

#[test]
fn same_device_passes() {
    assert!(ensure_same_device(Device::Cpu, "a", Device::Cpu, "b").is_ok());
    let error = ensure_same_device(Device::Cpu, "a", Device::Metal(0), "b").unwrap_err();
    assert_eq!(error.to_string(), "Device mismatch between a and b");
}

#[test]
fn as_complex_f64_promotes() {
    let real = tensor(&[2], &[0.0, 0.0], DType::F32);
    let imag = tensor(&[2], &[1.0, 1.0], DType::F32);
    let ct = ComplexTensor::new_unchecked(real, imag);
    let promoted = as_complex_f64(&ct);
    assert_eq!(promoted.real.dtype, DType::F64);
    assert_eq!(promoted.imag.dtype, DType::F64);
    assert_eq!(vals(&promoted.imag.values), &[1.0, 1.0]);
}

#[test]
fn angles_need_matching_operands() {
    let y = vector(&[1.0, 2.0]);
    assert!(check_atan2_operands(&y, &vector(&[1.0, 2.0])).is_ok());
    assert_eq!(
        check_atan2_operands(&y, &vector(&[1.0])).unwrap_err().to_string(),
        "Shape mismatch between y [2] and x [1]"
    );
    assert!(check_atan2_operands(&y, &tensor(&[2], &[1.0, 2.0], DType::F64)).is_err());
    let whole = tensor(&[1], &[1.0], DType::I64);
    assert!(check_atan2_operands(&whole, &whole.copied())
        .unwrap_err()
        .to_string()
        .contains("supports matching F32/F64 tensors"));
}

#[test]
fn rows_and_columns() {
    let a = matrix(
        2,
        3,
        [1.0, 2.0, 3.0, 4.0, 5.0, 6.0].iter().map(|v| num(*v)).collect(),
        DType::F64,
        Device::Cpu,
    );
    assert_eq!(vals(&narrow_rows(&a, 1, 1).values), &[4.0, 5.0, 6.0]);
    assert_eq!(vals(&select_rows(&a, &[1, 0]).values), &[4.0, 5.0, 6.0, 1.0, 2.0, 3.0]);
    let left = narrow_columns(&a, 0, 1);
    let right = narrow_columns(&a, 1, 2);
    assert_eq!(vals(&left.values), &[1.0, 4.0]);
    assert_eq!(vals(&right.values), &[2.0, 3.0, 5.0, 6.0]);
    assert_eq!(vals(&join_columns(&left, &right).values), vals(&a.values));
    let top = narrow_rows(&a, 0, 1);
    let bottom = narrow_rows(&a, 1, 1);
    let rejoined = join_rows(&vec![top, bottom]);
    assert_eq!(rejoined.dims, vec![2, 3]);
    assert_eq!(vals(&rejoined.values), vals(&a.values));
}

#[test]
fn complex_zeros() {
    let zero = ComplexTensor::zeros(&vec![2, 3], DType::F32, Device::Cpu);
    assert_eq!(zero.shape(), &vec![2, 3]);
    assert_eq!(vals(&zero.real.values), vec![0.0; 6]);
    assert_eq!(vals(&zero.imag.values), vec![0.0; 6]);
    assert_eq!(zero.imag.dtype, DType::F32);
}

//! How samples become feature and target matrices.
//!
//! Real models take the four scattering parameters as they are. Complex models
//! take packed rows: the real parts, then the imaginary parts. A complex target is
//! the permittivity itself, whose imaginary part is the negated loss factor.

use super::complex_tensor::ComplexTensor;
use super::generation::PermittivitySample;
use super::tensor::{
    equal_dims, join_columns, lemma_push_row, matrix, narrow_columns, rows_of, DType, Device,
    Tensor,
};
use crate::base::error::CoreError;
use crate::base::validation::{dims_text, format_dims};
use crate::model::ModelType;
use crate::scalar::Scalar;
use crate::text::{concat2, concat3, decimal, decimal_digits};
use vstd::prelude::*;
use vstd::string::StringExecFns;

verus! {

/// How a permittivity stands in the columns of a prediction.
#[derive(Clone, Copy, Debug, PartialEq, Eq, Structural)]
pub enum PredictionEncoding {
    /// One column per component.
    RealColumns { negate_imag: bool },
    /// A block of real parts, then a block of imaginary parts.
    PackedComplex { complex_feature_count: usize, negate_imag: bool },
}

/// Features and targets, and how to read predictions of the targets.
#[derive(Debug)]
pub struct TensorDataset {
    pub features: Tensor,
    pub targets: Tensor,
    pub encoding: PredictionEncoding,
}

/// The features of a sample for a real model.
pub open spec fn real_features(s: PermittivitySample) -> Seq<Scalar> {
    seq![s.s11_real, s.s11_imag, s.s21_real, s.s21_imag]
}

/// The targets of a sample for a real model.
pub open spec fn real_targets(s: PermittivitySample) -> Seq<Scalar> {
    seq![s.eps_prime, s.eps_double_prime]
}

/// The features of a sample for a complex model, packed.
pub open spec fn packed_features(s: PermittivitySample) -> Seq<Scalar> {
    seq![s.s11_real, s.s21_real, s.s11_imag, s.s21_imag]
}

/// The target of a sample for a complex model, packed.
pub open spec fn packed_targets(s: PermittivitySample) -> Seq<Scalar> {
    seq![s.eps_prime, s.eps_double_prime.flipped()]
}

/// A matrix of doubles on the CPU with the given rows of `cols` values.
pub open spec fn holds_rows(t: Tensor, rows: Seq<Seq<Scalar>>, cols: usize) -> bool {
    &&& t.wf()
    &&& t.dims@ == seq![rows.len() as usize, cols]
    &&& t.rows() == rows
    &&& t.dtype == DType::F64
    &&& t.device == Device::Cpu
}

/// Features and targets of samples for a real model.
pub fn samples_to_real_tensors(samples: &[PermittivitySample]) -> (result: (Tensor, Tensor))
    requires
        samples@.len() * 4 <= usize::MAX,
    ensures
        holds_rows(result.0, samples@.map_values(|s: PermittivitySample| real_features(s)), 4),
        holds_rows(result.1, samples@.map_values(|s: PermittivitySample| real_targets(s)), 2),
{
    let mut features: Vec<Scalar> = Vec::new();
    let mut targets: Vec<Scalar> = Vec::new();
    let mut i: usize = 0;
    while i < samples.len()
        invariant
            i <= samples@.len(),
            features@.len() == i * 4,
            targets@.len() == i * 2,
            rows_of(features@, 4, i as nat) == samples@.take(i as int).map_values(
                |s: PermittivitySample| real_features(s),
            ),
            rows_of(targets@, 2, i as nat) == samples@.take(i as int).map_values(
                |s: PermittivitySample| real_targets(s),
            ),
        decreases samples@.len() - i,
    {
        let s = samples[i];
        let ghost before = features@;
        let ghost targets_before = targets@;
        features.push(s.s11_real);
        features.push(s.s11_imag);
        features.push(s.s21_real);
        features.push(s.s21_imag);
        targets.push(s.eps_prime);
        targets.push(s.eps_double_prime);
        proof {
            assert(features@ == before + real_features(s));
            assert(targets@ == targets_before + real_targets(s));
            lemma_push_row(before, 4, i as nat, real_features(s));
            lemma_push_row(targets_before, 2, i as nat, real_targets(s));
            assert(samples@.take(i + 1).map_values(|s: PermittivitySample| real_features(s))
                == samples@.take(i as int).map_values(
                |s: PermittivitySample| real_features(s),
            ).push(real_features(s)));
            assert(samples@.take(i + 1).map_values(|s: PermittivitySample| real_targets(s))
                == samples@.take(i as int).map_values(
                |s: PermittivitySample| real_targets(s),
            ).push(real_targets(s)));
        }
        i += 1;
    }
    proof {
        assert(samples@.take(samples@.len() as int) == samples@);
    }
    let n: usize = samples.len();
    (
        matrix(n, 4, features, DType::F64, Device::Cpu),
        matrix(n, 2, targets, DType::F64, Device::Cpu),
    )
}

/// The real parts of a sample's two features.
pub open spec fn feature_real(s: PermittivitySample) -> Seq<Scalar> {
    seq![s.s11_real, s.s21_real]
}

/// The imaginary parts of a sample's two features.
pub open spec fn feature_imag(s: PermittivitySample) -> Seq<Scalar> {
    seq![s.s11_imag, s.s21_imag]
}

/// The real part of a sample's target.
pub open spec fn target_real(s: PermittivitySample) -> Seq<Scalar> {
    seq![s.eps_prime]
}

/// The imaginary part of a sample's target.
pub open spec fn target_imag(s: PermittivitySample) -> Seq<Scalar> {
    seq![s.eps_double_prime.flipped()]
}

/// Complex features and targets of samples.
pub fn samples_to_complex_tensors(samples: &[PermittivitySample]) -> (result: (
    ComplexTensor,
    ComplexTensor,
))
    requires
        samples@.len() * 2 <= usize::MAX,
    ensures
        holds_rows(
            result.0.real,
            samples@.map_values(|s: PermittivitySample| feature_real(s)),
            2,
        ),
        holds_rows(
            result.0.imag,
            samples@.map_values(|s: PermittivitySample| feature_imag(s)),
            2,
        ),
        holds_rows(
            result.1.real,
            samples@.map_values(|s: PermittivitySample| target_real(s)),
            1,
        ),
        holds_rows(
            result.1.imag,
            samples@.map_values(|s: PermittivitySample| target_imag(s)),
            1,
        ),
{
    let mut feature_re: Vec<Scalar> = Vec::new();
    let mut feature_im: Vec<Scalar> = Vec::new();
    let mut target_re: Vec<Scalar> = Vec::new();
    let mut target_im: Vec<Scalar> = Vec::new();
    let mut i: usize = 0;
    while i < samples.len()
        invariant
            i <= samples@.len(),
            feature_re@.len() == i * 2,
            feature_im@.len() == i * 2,
            target_re@.len() == i,
            target_im@.len() == i,
            rows_of(feature_re@, 2, i as nat) == samples@.take(i as int).map_values(
                |s: PermittivitySample| feature_real(s),
            ),
            rows_of(feature_im@, 2, i as nat) == samples@.take(i as int).map_values(
                |s: PermittivitySample| feature_imag(s),
            ),
            rows_of(target_re@, 1, i as nat) == samples@.take(i as int).map_values(
                |s: PermittivitySample| target_real(s),
            ),
            rows_of(target_im@, 1, i as nat) == samples@.take(i as int).map_values(
                |s: PermittivitySample| target_imag(s),
            ),
        decreases samples@.len() - i,
    {
        let s = samples[i];
        let ghost a = feature_re@;
        let ghost b = feature_im@;
        let ghost c = target_re@;
        let ghost d = target_im@;
        feature_re.push(s.s11_real);
        feature_re.push(s.s21_real);
        feature_im.push(s.s11_imag);
        feature_im.push(s.s21_imag);
        target_re.push(s.eps_prime);
        target_im.push(s.eps_double_prime.negated());
        proof {
            assert(feature_re@ == a + feature_real(s));
            assert(feature_im@ == b + feature_imag(s));
            assert(target_re@ == c + target_real(s));
            assert(target_im@ == d + target_imag(s));
            lemma_push_row(a, 2, i as nat, feature_real(s));
            lemma_push_row(b, 2, i as nat, feature_imag(s));
            lemma_push_row(c, 1, i as nat, target_real(s));
            lemma_push_row(d, 1, i as nat, target_imag(s));
            assert(samples@.take(i + 1).map_values(|s: PermittivitySample| feature_real(s))
                == samples@.take(i as int).map_values(
                |s: PermittivitySample| feature_real(s),
            ).push(feature_real(s)));
            assert(samples@.take(i + 1).map_values(|s: PermittivitySample| feature_imag(s))
                == samples@.take(i as int).map_values(
                |s: PermittivitySample| feature_imag(s),
            ).push(feature_imag(s)));
            assert(samples@.take(i + 1).map_values(|s: PermittivitySample| target_real(s))
                == samples@.take(i as int).map_values(
                |s: PermittivitySample| target_real(s),
            ).push(target_real(s)));
            assert(samples@.take(i + 1).map_values(|s: PermittivitySample| target_imag(s))
                == samples@.take(i as int).map_values(
                |s: PermittivitySample| target_imag(s),
            ).push(target_imag(s)));
        }
        i += 1;
    }
    proof {
        assert(samples@.take(samples@.len() as int) == samples@);
    }
    let n: usize = samples.len();
    let features = ComplexTensor::new_unchecked(
        matrix(n, 2, feature_re, DType::F64, Device::Cpu),
        matrix(n, 2, feature_im, DType::F64, Device::Cpu),
    );
    let targets = ComplexTensor::new_unchecked(
        matrix(n, 1, target_re, DType::F64, Device::Cpu),
        matrix(n, 1, target_im, DType::F64, Device::Cpu),
    );
    (features, targets)
}

/// Why a complex tensor cannot be packed; `None` where it can.
pub open spec fn pack_fault(values: ComplexTensor) -> Option<Seq<char>> {
    if values.real.dims@.len() != 2 {
        Some(
            "complex tensor bridge expects 2D tensors shaped (batch, features), got "@ + dims_text(
                values.real.dims@,
            ),
        )
    } else if values.imag.dims@ != values.real.dims@ {
        Some(
            "complex tensor bridge expected matching real/imag shapes, got "@ + dims_text(
                values.real.dims@,
            ) + " vs "@ + dims_text(values.imag.dims@),
        )
    } else {
        None
    }
}

/// Each row of `real` followed by the same row of `imag`.
pub open spec fn packed_rows(re: Seq<Seq<Scalar>>, im: Seq<Seq<Scalar>>) -> Seq<Seq<Scalar>> {
    Seq::new(re.len(), |r: int| re[r] + im[r])
}

/// Packs a complex matrix: the columns of the real part, then those of the
/// imaginary part.
pub fn pack_complex_features(values: &ComplexTensor) -> (result: Result<Tensor, CoreError>)
    requires
        values.wf(),
        values.real.dims@.len() == 2 ==> values.real.dims@[1] * 2 <= usize::MAX,
    ensures
        result is Ok <==> pack_fault(*values) is None,
        result matches Ok(packed) ==> {
            &&& packed.wf()
            &&& packed.dims@ == seq![
                values.real.dims@[0],
                (values.real.dims@[1] * 2) as usize,
            ]
            &&& packed.rows() == packed_rows(values.real.rows(), values.imag.rows())
            &&& packed.dtype == values.real.dtype
            &&& packed.device == values.real.device
        },
        result matches Err(e) ==> e.says(pack_fault(*values)->0),
{
    if values.real.dims.len() != 2 {
        let written = format_dims(values.real.dims.as_slice());
        return Err(
            CoreError::Msg(
                concat2(
                    "complex tensor bridge expects 2D tensors shaped (batch, features), got ",
                    written.as_str(),
                ),
            ),
        );
    }
    if !equal_dims(&values.imag.dims, &values.real.dims) {
        let left = format_dims(values.real.dims.as_slice());
        let right = format_dims(values.imag.dims.as_slice());
        let mut message = concat2(
            "complex tensor bridge expected matching real/imag shapes, got ",
            left.as_str(),
        );
        message.append(" vs ");
        message.append(right.as_str());
        return Err(CoreError::Msg(message));
    }
    let packed = join_columns(&values.real, &values.imag);
    proof {
        assert(packed.rows() == packed_rows(values.real.rows(), values.imag.rows()));
    }
    Ok(packed)
}

/// Why a matrix is not the packed form of `count` complex columns; `None` where it
/// is.
pub open spec fn unpack_fault(values: Tensor, count: usize) -> Option<Seq<char>> {
    if values.dims@.len() != 2 {
        Some(
            "complex tensor bridge expects 2D tensors shaped (batch, scalar_features), got "@
                + dims_text(values.dims@),
        )
    } else if values.dims@[1] != count * 2 {
        Some(
            "complex tensor bridge expected "@ + decimal_digits((count * 2) as nat)
                + " scalar features for "@ + decimal_digits(count as nat)
                + " complex features, got "@ + decimal_digits(values.dims@[1] as nat),
        )
    } else {
        None
    }
}

/// Checks that a matrix is the packed form of so many complex columns. Only its
/// dimensions are looked at.
pub fn check_packed(values: &Tensor, complex_feature_count: usize) -> (result: Result<
    (),
    CoreError,
>)
    requires
        complex_feature_count * 2 <= usize::MAX,
    ensures
        result is Ok <==> unpack_fault(*values, complex_feature_count) is None,
        result matches Err(e) ==> e.says(unpack_fault(*values, complex_feature_count)->0),
{
    if values.dims.len() != 2 {
        let written = format_dims(values.dims.as_slice());
        return Err(
            CoreError::Msg(
                concat2(
                    "complex tensor bridge expects 2D tensors shaped (batch, scalar_features), got ",
                    written.as_str(),
                ),
            ),
        );
    }
    let expected: usize = complex_feature_count * 2;
    if values.dims[1] != expected {
        let wanted = decimal(expected as u64);
        let features = decimal(complex_feature_count as u64);
        let got = decimal(values.dims[1] as u64);
        let mut message = concat3(
            "complex tensor bridge expected ",
            wanted.as_str(),
            " scalar features for ",
        );
        message.append(features.as_str());
        message.append(" complex features, got ");
        message.append(got.as_str());
        return Err(CoreError::Msg(message));
    }
    Ok(())
}

/// Takes a packed matrix apart into its real and imaginary columns.
pub fn unpack_complex_features(values: &Tensor, complex_feature_count: usize) -> (result: Result<
    ComplexTensor,
    CoreError,
>)
    requires
        values.wf(),
        complex_feature_count * 2 <= usize::MAX,
    ensures
        result is Ok <==> unpack_fault(*values, complex_feature_count) is None,
        result matches Ok(z) ==> {
            let n = complex_feature_count as int;
            &&& z.wf()
            &&& z.real.dims@ == seq![values.dims@[0], complex_feature_count]
            &&& z.imag.dims@ == seq![values.dims@[0], complex_feature_count]
            &&& z.real.rows() == values.rows().map_values(|row: Seq<Scalar>| row.subrange(0, n))
            &&& z.imag.rows() == values.rows().map_values(
                |row: Seq<Scalar>| row.subrange(n, n + n),
            )
            &&& z.real.dtype == values.dtype
            &&& z.imag.dtype == values.dtype
            &&& z.real.device == values.device
            &&& z.imag.device == values.device
        },
        result matches Err(e) ==> e.says(unpack_fault(*values, complex_feature_count)->0),
{
    if let Err(e) = check_packed(values, complex_feature_count) {
        return Err(e);
    }
    let re = narrow_columns(values, 0, complex_feature_count);
    let im = narrow_columns(values, complex_feature_count, complex_feature_count);
    Ok(ComplexTensor::new_unchecked(re, im))
}

/// Unpacking what was packed gives the real and the imaginary rows back.
pub proof fn unpacking_undoes_packing(
    re: Seq<Seq<Scalar>>,
    im: Seq<Seq<Scalar>>,
    count: int,
)
    requires
        re.len() == im.len(),
        forall|r: int| 0 <= r < re.len() ==> (#[trigger] re[r]).len() == count,
        forall|r: int| 0 <= r < im.len() ==> (#[trigger] im[r]).len() == count,
    ensures
        packed_rows(re, im).map_values(|row: Seq<Scalar>| row.subrange(0, count)) == re,
        packed_rows(re, im).map_values(|row: Seq<Scalar>| row.subrange(count, count + count))
            == im,
{
    let packed = packed_rows(re, im);
    assert forall|r: int| 0 <= r < re.len() implies packed[r].subrange(0, count) == re[r]
        && packed[r].subrange(count, count + count) == im[r] by {
        assert(re[r].len() == count);
        assert(im[r].len() == count);
        assert(packed[r].subrange(0, count) =~= re[r]);
        assert(packed[r].subrange(count, count + count) =~= im[r]);
    }
    assert(packed.map_values(|row: Seq<Scalar>| row.subrange(0, count)) =~= re);
    assert(packed.map_values(|row: Seq<Scalar>| row.subrange(count, count + count)) =~= im);
}

/// Packed features and targets of samples.
pub fn samples_to_packed_complex_tensors(samples: &[PermittivitySample]) -> (result: (
    Tensor,
    Tensor,
))
    requires
        samples@.len() * 4 <= usize::MAX,
    ensures
        holds_rows(result.0, samples@.map_values(|s: PermittivitySample| packed_features(s)), 4),
        holds_rows(result.1, samples@.map_values(|s: PermittivitySample| packed_targets(s)), 2),
{
    let (features, targets) = samples_to_complex_tensors(samples);
    let packed_f = join_columns(&features.real, &features.imag);
    let packed_t = join_columns(&targets.real, &targets.imag);
    proof {
        let n = samples@.len();
        assert forall|r: int| 0 <= r < n implies packed_f.rows()[r] == packed_features(
            samples@[r],
        ) && packed_t.rows()[r] == packed_targets(samples@[r]) by {
            assert(features.real.rows()[r] == feature_real(samples@[r]));
            assert(features.imag.rows()[r] == feature_imag(samples@[r]));
            assert(targets.real.rows()[r] == target_real(samples@[r]));
            assert(targets.imag.rows()[r] == target_imag(samples@[r]));
            assert(feature_real(samples@[r]) + feature_imag(samples@[r]) =~= packed_features(
                samples@[r],
            ));
            assert(target_real(samples@[r]) + target_imag(samples@[r]) =~= packed_targets(
                samples@[r],
            ));
        }
        assert(packed_f.rows() =~= samples@.map_values(
            |s: PermittivitySample| packed_features(s),
        ));
        assert(packed_t.rows() =~= samples@.map_values(
            |s: PermittivitySample| packed_targets(s),
        ));
    }
    (packed_f, packed_t)
}

/// Features, targets and encoding of samples for a model of the given type.
pub fn samples_to_tensors(
    model_type: ModelType,
    samples: &[PermittivitySample],
    negate_real_imag: bool,
) -> (result: TensorDataset)
    requires
        samples@.len() * 4 <= usize::MAX,
    ensures
        model_type == ModelType::Real ==> {
            &&& holds_rows(
                result.features,
                samples@.map_values(|s: PermittivitySample| real_features(s)),
                4,
            )
            &&& holds_rows(
                result.targets,
                samples@.map_values(|s: PermittivitySample| real_targets(s)),
                2,
            )
            &&& result.encoding == (PredictionEncoding::RealColumns {
                negate_imag: negate_real_imag,
            })
        },
        model_type == ModelType::Complex ==> {
            &&& holds_rows(
                result.features,
                samples@.map_values(|s: PermittivitySample| packed_features(s)),
                4,
            )
            &&& holds_rows(
                result.targets,
                samples@.map_values(|s: PermittivitySample| packed_targets(s)),
                2,
            )
            &&& result.encoding == (PredictionEncoding::PackedComplex {
                complex_feature_count: 1,
                negate_imag: false,
            })
        },
{
    match model_type {
        ModelType::Real => {
            let (features, targets) = samples_to_real_tensors(samples);
            TensorDataset {
                features,
                targets,
                encoding: PredictionEncoding::RealColumns { negate_imag: negate_real_imag },
            }
        },
        ModelType::Complex => {
            let (features, targets) = samples_to_packed_complex_tensors(samples);
            TensorDataset {
                features,
                targets,
                encoding: PredictionEncoding::PackedComplex {
                    complex_feature_count: 1,
                    negate_imag: false,
                },
            }
        },
    }
}

/// Real models see reflection before transmission, each with its real part first, and
/// learn the permittivity as it is listed.
pub proof fn real_rows_keep_the_pairs(s: PermittivitySample)
    ensures
        real_features(s).len() == 4,
        real_features(s)[0] == s.s11_real,
        real_features(s)[1] == s.s11_imag,
        real_features(s)[2] == s.s21_real,
        real_features(s)[3] == s.s21_imag,
        real_targets(s).len() == 2,
        real_targets(s)[0] == s.eps_prime,
        real_targets(s)[1] == s.eps_double_prime,
{
}

/// Complex models see the same two numbers: reflection, then transmission. They learn the
/// permittivity as one complex number whose imaginary part is the loss factor with its
/// sign turned, and a packed row has all real parts before all imaginary parts.
pub proof fn complex_rows_are_complex_numbers(s: PermittivitySample)
    ensures
        feature_real(s) == seq![s.s11_real, s.s21_real],
        feature_imag(s) == seq![s.s11_imag, s.s21_imag],
        target_real(s) == seq![s.eps_prime],
        target_imag(s) == seq![s.eps_double_prime.flipped()],
        packed_features(s) == feature_real(s) + feature_imag(s),
        packed_targets(s) == target_real(s) + target_imag(s),
        packed_features(s)[0] == real_features(s)[0],
        packed_features(s)[1] == real_features(s)[2],
        packed_features(s)[2] == real_features(s)[1],
        packed_features(s)[3] == real_features(s)[3],
{
    assert(packed_features(s) =~= feature_real(s) + feature_imag(s));
    assert(packed_targets(s) =~= target_real(s) + target_imag(s));
}

/// Complex tensors can be packed exactly where both parts are matrices of one shape, and
/// a matrix can be unpacked exactly where it has two columns per complex feature.
pub proof fn only_matching_shapes_are_bridged(z: ComplexTensor, t: Tensor, count: usize)
    ensures
        pack_fault(z) is None <==> z.real.dims@.len() == 2 && z.imag.dims@ == z.real.dims@,
        unpack_fault(t, count) is None <==> t.dims@.len() == 2 && t.dims@[1] == 2 * count,
{
}

/// A row of packed features holds the real parts first and the imaginary parts behind
/// them, in their order.
pub proof fn packed_rows_put_real_parts_first(
    re: Seq<Seq<Scalar>>,
    im: Seq<Seq<Scalar>>,
    r: int,
    c: int,
)
    requires
        0 <= r < re.len(),
        re.len() == im.len(),
    ensures
        packed_rows(re, im).len() == re.len(),
        0 <= c < re[r].len() ==> packed_rows(re, im)[r][c] == re[r][c],
        0 <= c < im[r].len() ==> packed_rows(re, im)[r][re[r].len() + c] == im[r][c],
{
}

/// A matrix of the wrong width is refused with the width that was expected, two columns for
/// each complex number, and the one it has.
pub proof fn refusals_give_the_expected_width(values: Tensor, count: usize)
    requires
        values.dims@.len() == 2,
        values.dims@[1] != 2 * count,
    ensures
        unpack_fault(values, count) == Some(
            "complex tensor bridge expected "@ + decimal_digits((2 * count) as nat)
                + " scalar features for "@ + decimal_digits(count as nat)
                + " complex features, got "@ + decimal_digits(values.dims@[1] as nat),
        ),
{
}

} // verus!

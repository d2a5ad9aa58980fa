//! Inversion of a single measurement.

use crate::base::error::{msg_error, CoreError};
use crate::base::s_params::S11S21;
use crate::data::generation::PermittivitySample;
use crate::data::tensor::{matrix, row_of, DType, Device, Tensor};
use crate::data::tensor_bridges::{packed_features, real_features};
use crate::model::ModelType;
use crate::scalar::Scalar;
use vstd::prelude::*;

verus! {

/// What a closed-form inversion found: the real part, and the imaginary part with
/// its sign turned. `None` where one of the two is not finite.
pub fn nrw_permittivity(eps_real: Scalar, eps_imag: Scalar) -> (result: Option<(Scalar, Scalar)>)
    ensures
        result is Some <==> eps_real.finite() && eps_imag.finite(),
        result matches Some(eps) ==> eps == (eps_real, eps_imag.flipped()),
{
    if eps_real.is_finite() && eps_imag.is_finite() {
        Some((eps_real, eps_imag.negated()))
    } else {
        None
    }
}

/// The sample of a measurement whose permittivity is not known.
pub open spec fn unknown_sample(s: S11S21) -> PermittivitySample {
    PermittivitySample {
        s11_real: s.s11_real,
        s11_imag: s.s11_imag,
        s21_real: s.s21_real,
        s21_imag: s.s21_imag,
        eps_prime: Scalar { bits: 0 },
        eps_double_prime: Scalar { bits: 0 },
        is_dense_patch: false,
    }
}

/// The sample of a measurement whose permittivity is not known.
pub fn user_sample(s: &S11S21) -> (result: PermittivitySample)
    ensures
        result == unknown_sample(*s),
{
    PermittivitySample {
        s11_real: s.s11_real,
        s11_imag: s.s11_imag,
        s21_real: s.s21_real,
        s21_imag: s.s21_imag,
        eps_prime: Scalar::zero(),
        eps_double_prime: Scalar::zero(),
        is_dense_patch: false,
    }
}

/// The features of a measurement for a family.
pub open spec fn measurement_row(s: S11S21, model_type: ModelType) -> Seq<Scalar> {
    match model_type {
        ModelType::Real => real_features(unknown_sample(s)),
        ModelType::Complex => packed_features(unknown_sample(s)),
    }
}

/// The input of a model: one row, in the layout of the family.
pub fn inference_input(s: &S11S21, model_type: ModelType) -> (result: Tensor)
    ensures
        result.wf(),
        result.dims@ == seq![1usize, 4usize],
        result.values@ == measurement_row(*s, model_type),
        result.rows() == seq![measurement_row(*s, model_type)],
        result.dtype == DType::F64,
        result.device == Device::Cpu,
{
    let row = match model_type {
        ModelType::Complex => s.as_complex_row(),
        ModelType::Real => s.as_real_row(),
    };
    let mut values: Vec<Scalar> = Vec::new();
    values.push(row[0]);
    values.push(row[1]);
    values.push(row[2]);
    values.push(row[3]);
    proof {
        assert(values@ =~= measurement_row(*s, model_type));
    }
    let result = matrix(1, 4, values, DType::F64, Device::Cpu);
    proof {
        assert(row_of(result.values@, 4, 0) =~= measurement_row(*s, model_type));
        assert(result.rows() =~= seq![measurement_row(*s, model_type)]);
    }
    result
}

/// The loss factor that a model's imaginary part stands for: a complex model stores
/// it with the opposite sign.
pub open spec fn stored_loss_factor(imag: Scalar, model_type: ModelType) -> Scalar {
    match model_type {
        ModelType::Complex => imag.flipped(),
        ModelType::Real => imag,
    }
}

fn loss_factor(imag: Scalar, model_type: ModelType) -> (result: Scalar)
    ensures
        result == stored_loss_factor(imag, model_type),
{
    match model_type {
        ModelType::Complex => imag.negated(),
        ModelType::Real => imag,
    }
}

/// The permittivity in the first row of a model's output in physical units.
pub fn permittivity_from_output(output: &Tensor, model_type: ModelType) -> (result: Result<
    (Scalar, Scalar),
    CoreError,
>)
    requires
        output.wf(),
        output.dims@.len() == 2,
    ensures
        result is Ok <==> output.dims@[0] > 0 && output.dims@[1] >= 2,
        result matches Ok(eps) ==> {
            &&& eps.0 == output.rows()[0][0]
            &&& eps.1 == stored_loss_factor(output.rows()[0][1], model_type)
        },
        result matches Err(e) ==> e.says("model output shape too small"@),
{
    if output.dims[0] == 0 || output.dims[1] < 2 {
        return Err(msg_error("model output shape too small"));
    }
    proof {
        crate::data::tensor::lemma_matrix_size(*output);
        crate::data::tensor::lemma_row_bounds(output.dims@[1] as int, output.dims@[0] as int, 0);
    }
    let eps_prime = output.values[0];
    let stored = output.values[1];
    Ok((eps_prime, loss_factor(stored, model_type)))
}

/// The permittivity that stacked models predict for a single measurement.
pub fn permittivity_from_stack(re: &Vec<Scalar>, im: &Vec<Scalar>, model_type: ModelType) -> (result:
    Result<(Scalar, Scalar), CoreError>)
    ensures
        result is Ok <==> re@.len() > 0 && im@.len() > 0,
        result matches Ok(eps) ==> {
            &&& eps.0 == re@[0]
            &&& eps.1 == stored_loss_factor(im@[0], model_type)
        },
        result matches Err(e) ==> e.says("stacked_inference returned empty prediction tensor"@),
{
    if re.len() == 0 || im.len() == 0 {
        return Err(msg_error("stacked_inference returned empty prediction tensor"));
    }
    Ok((re[0], loss_factor(im[0], model_type)))
}

/// A model that predicts the target of a sample exactly gives the sample's loss
/// factor back, in either family.
pub proof fn exact_predictions_give_the_sample(s: PermittivitySample)
    ensures
        stored_loss_factor(
            crate::data::tensor_bridges::real_targets(s)[1],
            ModelType::Real,
        ) == s.eps_double_prime,
        stored_loss_factor(
            crate::data::tensor_bridges::packed_targets(s)[1],
            ModelType::Complex,
        ) == s.eps_double_prime,
{
    crate::scalar::negation_is_an_involution(s.eps_double_prime);
}

/// The weights of all models: the first, then the others.
pub fn all_members(primary: Vec<u8>, extra: Vec<Vec<u8>>) -> (result: Vec<Vec<u8>>)
    ensures
        result@ == seq![primary] + extra@,
{
    let mut result: Vec<Vec<u8>> = Vec::new();
    result.push(primary);
    let mut extra = extra;
    let ghost others = extra@;
    result.append(&mut extra);
    proof {
        assert(result@ =~= seq![primary] + others);
    }
    result
}

/// A measurement is asked about as a sample would be: the row that a model sees is that of
/// any sample with these scattering parameters.
pub proof fn measurements_are_asked_as_samples(s: PermittivitySample, model_type: ModelType)
    ensures
        ({
            let measured = S11S21 {
                s11_real: s.s11_real,
                s11_imag: s.s11_imag,
                s21_real: s.s21_real,
                s21_imag: s.s21_imag,
            };
            &&& measurement_row(measured, ModelType::Real) == real_features(s)
            &&& measurement_row(measured, ModelType::Complex) == packed_features(s)
            &&& unknown_sample(measured).s11_real == s.s11_real
            &&& unknown_sample(measured).s11_imag == s.s11_imag
            &&& unknown_sample(measured).s21_real == s.s21_real
            &&& unknown_sample(measured).s21_imag == s.s21_imag
            &&& !unknown_sample(measured).is_dense_patch
            &&& unknown_sample(measured).eps_prime.bits == 0
            &&& unknown_sample(measured).eps_double_prime.bits == 0
            &&& measured.real_row() == real_features(s)
            &&& measured.complex_row() == packed_features(s)
        }),
{
}

/// Complex models predict the imaginary part of the permittivity, real models the loss
/// factor itself.
pub proof fn loss_factors_are_read_by_family(imag: Scalar)
    ensures
        stored_loss_factor(imag, ModelType::Real) == imag,
        stored_loss_factor(imag, ModelType::Complex) == imag.flipped(),
{
}

} // verus!

//! Which loss a run is trained with, and what the physics term of it sees.

use crate::data::complex_tensor::{negated_tensor, ComplexTensor};
use crate::data::generation::PermittivitySample;
use crate::data::tensor::{lemma_matrix_size, lemma_row_bounds, narrow_columns, Tensor};
use crate::data::tensor_bridges::{packed_targets, real_targets};
use crate::model::ModelType;
use crate::scalar::Scalar;
use vstd::prelude::*;

verus! {

/// The pattern of 0.001, the weight of the physics term where none is given.
pub const DEFAULT_PHYSICS_LAMBDA_BITS: u64 = 0x3f50_624d_d2f1_a9fc;

/// A loss as it is asked for.
#[derive(Clone, Copy, Debug, PartialEq, Eq, Structural)]
pub enum MlpLoss {
    Mse,
    SmoothL1 { beta: Scalar },
    /// The squared error of the permittivity, relative to it.
    EpsRelMse,
    /// The squared error, with the residual of the scattering parameters that the
    /// prediction would have.
    PhysicsForward,
}

/// A loss as it is computed.
#[derive(Clone, Copy, Debug, PartialEq, Eq, Structural)]
pub enum LossKernel {
    MeanSquared,
    SmoothL1 { beta: Scalar },
    RelativeError,
    /// The weighted residual of the scattering parameters, with the squared error
    /// where it is supervised.
    Physics { weight: Scalar, supervised: bool },
}

/// How a loss is computed.
#[derive(Clone, Copy, Debug, PartialEq, Eq, Structural)]
pub struct LossPlan {
    /// The prediction is brought into the physical range first.
    pub clamps: bool,
    pub kernel: LossKernel,
}

/// What a loss can draw on.
#[derive(Clone, Copy, Debug, PartialEq, Eq, Structural)]
pub struct LossContext {
    pub has_feature_scaler: bool,
    pub has_target_scaler: bool,
    pub has_physics: bool,
    /// The squared error is switched off.
    pub unsupervised: bool,
}

/// How a loss is computed. One that lacks what it needs becomes the mean squared
/// error.
pub open spec fn loss_plan(loss: MlpLoss, weight: Scalar, context: LossContext) -> LossPlan {
    LossPlan {
        clamps: context.has_target_scaler,
        kernel: match loss {
            MlpLoss::Mse => LossKernel::MeanSquared,
            MlpLoss::SmoothL1 { beta } => LossKernel::SmoothL1 { beta },
            MlpLoss::EpsRelMse => if context.has_target_scaler {
                LossKernel::RelativeError
            } else {
                LossKernel::MeanSquared
            },
            MlpLoss::PhysicsForward => if context.has_target_scaler && context.has_feature_scaler
                && context.has_physics {
                LossKernel::Physics { weight, supervised: !context.unsupervised }
            } else {
                LossKernel::MeanSquared
            },
        },
    }
}

/// Whether a loss works on targets in physical units.
pub fn needs_unscaled_targets(loss: MlpLoss) -> (result: bool)
    ensures
        result == (loss is EpsRelMse || loss is PhysicsForward),
{
    match loss {
        MlpLoss::EpsRelMse => true,
        MlpLoss::PhysicsForward => true,
        _ => false,
    }
}

/// How a loss is computed.
pub fn packed_loss(loss: MlpLoss, weight: Scalar, context: LossContext) -> (result: LossPlan)
    ensures
        result == loss_plan(loss, weight, context),
{
    let relative: bool = needs_unscaled_targets(loss) && context.has_target_scaler;
    let kernel = match loss {
        MlpLoss::Mse => LossKernel::MeanSquared,
        MlpLoss::SmoothL1 { beta } => LossKernel::SmoothL1 { beta },
        MlpLoss::EpsRelMse => if relative {
            LossKernel::RelativeError
        } else {
            LossKernel::MeanSquared
        },
        MlpLoss::PhysicsForward => if relative && context.has_feature_scaler
            && context.has_physics {
            LossKernel::Physics { weight, supervised: !context.unsupervised }
        } else {
            LossKernel::MeanSquared
        },
    };
    LossPlan { clamps: context.has_target_scaler, kernel }
}

/// A loss without scalers and physics is the mean squared error or the smooth one:
/// it never needs what is not there.
pub proof fn losses_degrade(loss: MlpLoss, weight: Scalar, unsupervised: bool)
    ensures
        loss_plan(
            loss,
            weight,
            LossContext {
                has_feature_scaler: false,
                has_target_scaler: false,
                has_physics: false,
                unsupervised,
            },
        ).kernel is MeanSquared || loss is SmoothL1,
{
}

/// The weight of the physics term: the one that was given, else the default.
pub fn physics_weight(given: Option<Scalar>) -> (result: Scalar)
    ensures
        given matches Some(weight) ==> result == weight,
        given is None ==> result.bits == DEFAULT_PHYSICS_LAMBDA_BITS,
{
    match given {
        Some(weight) => weight,
        None => Scalar::from_bits(DEFAULT_PHYSICS_LAMBDA_BITS),
    }
}

/// The real part of the permittivity that a row of targets in physical units
/// stands for.
pub open spec fn physical_real(row: Seq<Scalar>) -> Scalar {
    row[0]
}

/// The imaginary part of the permittivity that a row of targets in physical units
/// stands for: real models keep the loss factor with a positive sign.
pub open spec fn physical_imag(row: Seq<Scalar>, model_type: ModelType) -> Scalar {
    if turns_for_physics(model_type) {
        row[1].flipped()
    } else {
        row[1]
    }
}

/// A family keeps the loss factor with a positive sign, so that it is turned for the
/// physics term.
pub open spec fn turns_for_physics(model_type: ModelType) -> bool {
    model_type == ModelType::Real
}

/// Whether the second column of a family's predictions is turned for the physics term.
pub fn is_turned_for_physics(model_type: ModelType) -> (result: bool)
    ensures
        result == turns_for_physics(model_type),
{
    match model_type {
        ModelType::Real => true,
        ModelType::Complex => false,
    }
}

/// The permittivities that rows of predictions in physical units stand for, as the
/// physics term takes them. The result is made of values; where gradients have to pass
/// through, [`is_turned_for_physics`] tells which sign the caller has to turn.
pub fn permittivity_for_physics(predictions: &Tensor, model_type: ModelType) -> (result:
    ComplexTensor)
    requires
        predictions.wf(),
        predictions.dims@.len() == 2,
        predictions.dims@[1] == 2,
    ensures
        result.wf(),
        result.real.dims@ == seq![predictions.dims@[0], 1usize],
        result.imag.dims@ == seq![predictions.dims@[0], 1usize],
        result.real.rows() == predictions.rows().map_values(
            |row: Seq<Scalar>| seq![physical_real(row)],
        ),
        result.imag.rows() == predictions.rows().map_values(
            |row: Seq<Scalar>| seq![physical_imag(row, model_type)],
        ),
        result.real.dtype == predictions.dtype,
        result.imag.dtype == predictions.dtype,
        result.real.device == predictions.device,
        result.imag.device == predictions.device,
{
    let re = narrow_columns(predictions, 0, 1);
    let stored = narrow_columns(predictions, 1, 1);
    let ghost kept = stored;
    proof {
        lemma_matrix_size(*predictions);
        lemma_matrix_size(stored);
    }
    let im = if is_turned_for_physics(model_type) {
        negated_tensor(&stored)
    } else {
        stored
    };
    proof {
        lemma_matrix_size(im);
        assert forall|r: int| 0 <= r < predictions.dims@[0] implies (#[trigger] re.rows()[r])
            == seq![physical_real(predictions.rows()[r])] by {
            lemma_row_bounds(2, predictions.dims@[0] as int, r);
            assert(re.rows()[r] =~= seq![physical_real(predictions.rows()[r])]);
        }
        assert forall|r: int| 0 <= r < predictions.dims@[0] implies (#[trigger] im.rows()[r])
            == seq![physical_imag(predictions.rows()[r], model_type)] by {
            lemma_row_bounds(2, predictions.dims@[0] as int, r);
            assert(kept.rows()[r] == predictions.rows()[r].subrange(1, 2));
            lemma_row_bounds(1, predictions.dims@[0] as int, r);
            assert(kept.dims@[1] == 1 && im.dims@[1] == 1);
            assert(kept.rows()[r][0] == predictions.rows()[r][1]);
            assert(kept.rows()[r] == kept.values@.subrange(r * 1, r * 1 + 1));
            assert(kept.rows()[r][0] == kept.values@[r]);
            assert(im.rows()[r] =~= seq![physical_imag(predictions.rows()[r], model_type)]);
        }
        assert(re.rows() =~= predictions.rows().map_values(
            |row: Seq<Scalar>| seq![physical_real(row)],
        ));
        assert(im.rows() =~= predictions.rows().map_values(
            |row: Seq<Scalar>| seq![physical_imag(row, model_type)],
        ));
    }
    ComplexTensor::new_unchecked(re, im)
}

/// The physics term sees the same permittivity of a sample whichever family stores
/// it.
pub proof fn families_mean_the_same_permittivity(s: PermittivitySample)
    ensures
        physical_real(real_targets(s)) == physical_real(packed_targets(s)),
        physical_imag(real_targets(s), ModelType::Real) == physical_imag(
            packed_targets(s),
            ModelType::Complex,
        ),
{
}

/// The kernel of a loss is the one that was asked for wherever it can be computed. The
/// relative error needs the scale of the targets; the physics term needs both scales and
/// the physics, keeps the weight that was given, and leaves out the squared error where
/// the run is unsupervised. What cannot be computed becomes the mean square, and
/// predictions are clamped where the scale of the targets is there to do it.
pub proof fn losses_are_computed_as_asked(beta: Scalar, weight: Scalar, context: LossContext)
    ensures
        loss_plan(MlpLoss::Mse, weight, context).kernel is MeanSquared,
        loss_plan(MlpLoss::SmoothL1 { beta }, weight, context).kernel == (LossKernel::SmoothL1 {
            beta,
        }),
        context.has_target_scaler ==> loss_plan(MlpLoss::EpsRelMse, weight, context).kernel
            is RelativeError,
        !context.has_target_scaler ==> loss_plan(MlpLoss::EpsRelMse, weight, context).kernel
            is MeanSquared,
        context.has_target_scaler && context.has_feature_scaler && context.has_physics ==> {
            match loss_plan(MlpLoss::PhysicsForward, weight, context).kernel {
                LossKernel::Physics { weight: used, supervised } => used == weight && supervised
                    == !context.unsupervised,
                _ => false,
            }
        },
        !(context.has_target_scaler && context.has_feature_scaler && context.has_physics)
            ==> loss_plan(MlpLoss::PhysicsForward, weight, context).kernel is MeanSquared,
        forall|loss: MlpLoss|
            (#[trigger] loss_plan(loss, weight, context)).clamps == context.has_target_scaler,
{
}

/// An exact prediction of either family stands for the permittivity of its sample, with
/// the loss factor as a negative imaginary part. Only what real models predict has to be
/// turned for that.
pub proof fn physics_sees_a_lossy_permittivity(s: PermittivitySample)
    ensures
        physical_real(real_targets(s)) == s.eps_prime,
        physical_real(packed_targets(s)) == s.eps_prime,
        physical_imag(real_targets(s), ModelType::Real) == s.eps_double_prime.flipped(),
        physical_imag(packed_targets(s), ModelType::Complex) == s.eps_double_prime.flipped(),
        turns_for_physics(ModelType::Real),
        !turns_for_physics(ModelType::Complex),
{
}

} // verus!

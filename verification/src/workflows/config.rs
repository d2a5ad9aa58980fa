//! What a run is configured with.

use crate::base::error::CoreError;
use crate::data::generation::PermittivitySample;
use crate::json::{json_u64_field, unsigned_field};
use crate::model::ModelType;
use crate::scalar::Scalar;
use crate::text::{concat3, decimal, decimal_digits};
use vstd::prelude::*;

verus! {

/// The pattern of 0.001, the learning rate of the refinement.
pub const REFINE_LR_BITS: u64 = 0x3f50_624d_d2f1_a9fc;

/// The normalization of a complex model.
#[derive(Clone, Copy, Debug, PartialEq, Eq, Structural)]
pub enum ComplexNorm {
    Absent,
    LayerNorm,
}

/// The architecture of a model. Activations are kept apart by family, so that the
/// name of a complex one cannot end up in a real model.
#[allow(inconsistent_fields)]
#[derive(Debug)]
pub enum ModelConfig {
    Real { hidden_size: usize, activation: String, dropout: Scalar, norm: String },
    Complex {
        hidden_size: usize,
        complex_activation: String,
        dropout: Scalar,
        norm: ComplexNorm,
    },
}

/// How an architecture is described.
pub open spec fn described(model_type: ModelType, hidden_size: usize) -> Seq<char> {
    match model_type {
        ModelType::Complex => "Complex MLP (2c-"@ + decimal_digits(hidden_size as nat) + "c-1c)"@,
        ModelType::Real => "Real MLP (4-"@ + decimal_digits(hidden_size as nat) + "-2)"@,
    }
}

impl ModelConfig {
    /// The family.
    pub open spec fn family(&self) -> ModelType {
        match self {
            ModelConfig::Real { .. } => ModelType::Real,
            ModelConfig::Complex { .. } => ModelType::Complex,
        }
    }

    /// The number of hidden units.
    pub open spec fn width(&self) -> usize {
        match self {
            ModelConfig::Real { hidden_size, .. } => *hidden_size,
            ModelConfig::Complex { hidden_size, .. } => *hidden_size,
        }
    }

    /// The probability of dropout.
    pub open spec fn dropout_rate(&self) -> Scalar {
        match self {
            ModelConfig::Real { dropout, .. } => *dropout,
            ModelConfig::Complex { dropout, .. } => *dropout,
        }
    }

    /// The same architecture, with names compared by their characters.
    pub open spec fn same_as(&self, other: ModelConfig) -> bool {
        match (self, other) {
            (
                ModelConfig::Real { hidden_size, activation, dropout, norm },
                ModelConfig::Real { hidden_size: h, activation: a, dropout: d, norm: n },
            ) => *hidden_size == h && activation@ == a@ && *dropout == d && norm@ == n@,
            (
                ModelConfig::Complex { hidden_size, complex_activation, dropout, norm },
                ModelConfig::Complex { hidden_size: h, complex_activation: a, dropout: d, norm: n },
            ) => *hidden_size == h && complex_activation@ == a@ && *dropout == d && *norm == n,
            _ => false,
        }
    }

    /// A real model. `activation` is what the family's table says of the name that
    /// was asked for: the name to use, or a complaint.
    pub fn real_model(
        hidden_size: usize,
        activation: Result<String, String>,
        dropout: Scalar,
        norm: String,
    ) -> (result: Result<ModelConfig, CoreError>)
        ensures
            activation matches Ok(name) ==> result == Ok::<ModelConfig, CoreError>(
                ModelConfig::Real { hidden_size, activation: name, dropout, norm },
            ),
            activation matches Err(complaint) ==> (result matches Err(e) && e.says(complaint@)),
    {
        match activation {
            Ok(name) => Ok(ModelConfig::Real { hidden_size, activation: name, dropout, norm }),
            Err(complaint) => Err(CoreError::Msg(complaint)),
        }
    }

    /// A complex model, with layer normalization. `complex_activation` is what the
    /// family's table says of the name that was asked for.
    pub fn complex(
        hidden_size: usize,
        complex_activation: Result<String, String>,
        dropout: Scalar,
    ) -> (result: Result<ModelConfig, CoreError>)
        ensures
            complex_activation matches Ok(name) ==> result == Ok::<ModelConfig, CoreError>(
                ModelConfig::Complex {
                    hidden_size,
                    complex_activation: name,
                    dropout,
                    norm: ComplexNorm::LayerNorm,
                },
            ),
            complex_activation matches Err(complaint) ==> (result matches Err(e) && e.says(
                complaint@,
            )),
    {
        match complex_activation {
            Ok(name) => Ok(
                ModelConfig::Complex {
                    hidden_size,
                    complex_activation: name,
                    dropout,
                    norm: ComplexNorm::LayerNorm,
                },
            ),
            Err(complaint) => Err(CoreError::Msg(complaint)),
        }
    }

    /// Whether the model computes with complex numbers.
    pub fn is_complex(&self) -> (result: bool)
        ensures
            result == (self.family() == ModelType::Complex),
    {
        match self {
            ModelConfig::Real { .. } => false,
            ModelConfig::Complex { .. } => true,
        }
    }

    /// The family.
    pub fn model_type(&self) -> (result: ModelType)
        ensures
            result == self.family(),
    {
        match self {
            ModelConfig::Real { .. } => ModelType::Real,
            ModelConfig::Complex { .. } => ModelType::Complex,
        }
    }

    /// The number of hidden units.
    pub fn hidden_size(&self) -> (result: usize)
        ensures
            result == self.width(),
    {
        match self {
            ModelConfig::Real { hidden_size, .. } => *hidden_size,
            ModelConfig::Complex { hidden_size, .. } => *hidden_size,
        }
    }

    /// A line that describes the architecture.
    pub fn arch_description(&self) -> (result: String)
        ensures
            result@ == described(self.family(), self.width()),
    {
        match self {
            ModelConfig::Complex { hidden_size, .. } => {
                let width = decimal(*hidden_size as u64);
                concat3("Complex MLP (2c-", &width, "c-1c)")
            },
            ModelConfig::Real { hidden_size, .. } => {
                let width = decimal(*hidden_size as u64);
                concat3("Real MLP (4-", &width, "-2)")
            },
        }
    }
}

/// A training run.
#[derive(Debug)]
pub struct TrainConfig {
    pub train_samples: Vec<PermittivitySample>,
    pub val_samples: Vec<PermittivitySample>,
    pub test_samples: Vec<PermittivitySample>,
    /// Where the weights are written; `None` leaves them in memory.
    pub checkpoint_path: Option<String>,
    pub model: ModelConfig,
    pub optimizer: String,
    pub lr: Scalar,
    pub weight_decay: Scalar,
    pub batch_size: String,
    pub max_epochs: usize,
    pub patience: usize,
    pub warmup_epochs: usize,
    pub scheduler: String,
    pub loss: String,
    /// Where weights to start from are read.
    pub checkpoint: Option<String>,
    pub seed: u64,
    pub log_progress: bool,
    /// The seed of the batch order; `None` takes `seed`.
    pub shuffle_seed: Option<u64>,
    pub grad_clip_norm: Option<Scalar>,
    pub input_noise_std: Option<Scalar>,
    pub cosine_eta_min: Option<Scalar>,
    pub plateau_factor: Option<Scalar>,
    pub plateau_patience: Option<usize>,
    pub plateau_min_lr: Option<Scalar>,
    pub sgd_momentum: Option<Scalar>,
    pub sgd_nesterov: Option<bool>,
    pub rmsprop_momentum: Option<Scalar>,
    pub rmsprop_alpha: Option<Scalar>,
    pub pi_mape_beta: Option<Scalar>,
    /// The weight of the physics term in the hybrid loss.
    pub physics_lambda: Option<Scalar>,
}

/// A training run with the stages of the stacked pipeline, each independent of the
/// others.
#[derive(Debug)]
pub struct StackedTrainConfig {
    pub base: TrainConfig,
    /// The side of the near-vacuum patch that is added to the training samples; 0
    /// is off.
    pub train_overlay_density: usize,
    /// How many models vote by median; 1 is a single model.
    pub ensemble_size: usize,
    /// How many steps the prediction is refined; 0 is off.
    pub refine_steps: usize,
    pub refine_lr: Scalar,
}

impl StackedTrainConfig {
    /// No stage is on.
    pub open spec fn passes_through(&self) -> bool {
        self.train_overlay_density == 0 && self.ensemble_size <= 1 && self.refine_steps == 0
    }

    /// The stages as given, around a run.
    pub open spec fn stages(
        &self,
        base: TrainConfig,
        overlay: usize,
        members: usize,
        steps: usize,
        lr: Scalar,
    ) -> bool {
        &&& self.base == base
        &&& self.train_overlay_density == overlay
        &&& self.ensemble_size == members
        &&& self.refine_steps == steps
        &&& self.refine_lr == lr
    }

    /// A run with every stage off.
    pub fn from_base(base: TrainConfig) -> (result: StackedTrainConfig)
        ensures
            result.stages(base, 0, 1, 0, Scalar { bits: REFINE_LR_BITS }),
            result.passes_through(),
    {
        StackedTrainConfig {
            base,
            train_overlay_density: 0,
            ensemble_size: 1,
            refine_steps: 0,
            refine_lr: Scalar::from_bits(REFINE_LR_BITS),
        }
    }

    /// The recipe that did best: an 8 by 8 overlay, three models, 100 steps.
    pub fn winning_recipe(base: TrainConfig) -> (result: StackedTrainConfig)
        ensures
            result.stages(base, 8, 3, 100, Scalar { bits: REFINE_LR_BITS }),
            !result.passes_through(),
    {
        StackedTrainConfig {
            base,
            train_overlay_density: 8,
            ensemble_size: 3,
            refine_steps: 100,
            refine_lr: Scalar::from_bits(REFINE_LR_BITS),
        }
    }

    /// Whether every stage is off.
    pub fn is_passthrough(&self) -> (result: bool)
        ensures
            result == self.passes_through(),
    {
        self.train_overlay_density == 0 && self.ensemble_size <= 1 && self.refine_steps == 0
    }
}

/// What a training run reports.
#[derive(Clone, Copy, Debug)]
pub struct TrainMetricsSummary {
    pub ok_at_1pct: Scalar,
    pub ok_at_10pct: Scalar,
    pub mean_error: Scalar,
    pub max_error: Scalar,
    pub min_error: Scalar,
    pub median_error: Scalar,
    pub r2_real: Scalar,
    pub r2_imag: Scalar,
    pub best_epoch: usize,
    pub final_epoch: usize,
    pub stopped_early: bool,
    pub training_time_secs: Scalar,
}

/// Where weights come from: a file, or bytes in memory.
#[derive(Debug)]
pub enum CheckpointSource {
    Path(String),
    Bytes(Vec<u8>),
}

/// The stages of the stacked pipeline as they are replayed on a trained model.
#[derive(Debug)]
pub struct StackedInferenceConfig {
    pub overlay_density: usize,
    /// The seed of the overlay, the same as in training.
    pub seed: u64,
    /// The weights of the models besides the first.
    pub extra_members: Vec<Vec<u8>>,
    pub refine_steps: usize,
    pub refine_lr: Scalar,
}

impl Default for StackedInferenceConfig {
    /// Every stage off.
    fn default() -> (result: StackedInferenceConfig)
        ensures
            result.overlay_density == 0,
            result.seed == 0,
            result.extra_members@.len() == 0,
            result.refine_steps == 0,
            result.refine_lr == (Scalar { bits: 0 }),
    {
        StackedInferenceConfig {
            overlay_density: 0,
            seed: 0,
            extra_members: Vec::new(),
            refine_steps: 0,
            refine_lr: Scalar::zero(),
        }
    }
}

/// The value, or another one in its place.
pub open spec fn given_or<T>(value: Option<T>, default: T) -> T {
    match value {
        Some(value) => value,
        None => default,
    }
}

impl StackedInferenceConfig {
    /// No stage is on.
    pub open spec fn passes_through(&self) -> bool {
        self.overlay_density == 0 && self.extra_members@.len() == 0 && self.refine_steps == 0
    }

    /// Whether every stage is off.
    pub fn is_passthrough(&self) -> (result: bool)
        ensures
            result == self.passes_through(),
    {
        self.overlay_density == 0 && self.extra_members.len() == 0 && self.refine_steps == 0
    }

    /// These are the stages that settings name, given as text. Where a setting is
    /// missing, the stage is off and the seed is `seed_default`.
    pub open spec fn reads(
        &self,
        config_json: Seq<char>,
        refine_lr: Option<Scalar>,
        seed_default: u64,
    ) -> bool {
        &&& self.overlay_density == given_or(
            json_u64_field(config_json, "m10_train_overlay_density"@),
            0,
        ) as usize
        &&& self.seed == given_or(json_u64_field(config_json, "seed"@), seed_default)
        &&& self.extra_members@.len() == 0
        &&& self.refine_steps == given_or(
            json_u64_field(config_json, "m10_refine_steps"@),
            0,
        ) as usize
        &&& self.refine_lr == given_or(refine_lr, Scalar { bits: REFINE_LR_BITS })
    }

    /// The stages that the settings of a run name. A run from before the stages
    /// has none, and takes `seed_default`. `refine_lr` is the number under
    /// `m10_refine_lr`. The weights of further models are not among the settings.
    pub fn from_config_json(config_json: &str, refine_lr: Option<Scalar>, seed_default: u64)
        -> (result: StackedInferenceConfig)
        ensures
            result.reads(config_json@, refine_lr, seed_default),
    {
        let overlay: Option<u64> = unsigned_field(config_json, "m10_train_overlay_density");
        let seed: Option<u64> = unsigned_field(config_json, "seed");
        let steps: Option<u64> = unsigned_field(config_json, "m10_refine_steps");
        StackedInferenceConfig::with_settings(overlay, seed, steps, refine_lr, seed_default)
    }

    /// The stages by the settings of a run, where they are given.
    pub fn with_settings(
        overlay: Option<u64>,
        seed: Option<u64>,
        steps: Option<u64>,
        refine_lr: Option<Scalar>,
        seed_default: u64,
    ) -> (result: StackedInferenceConfig)
        ensures
            result.overlay_density == given_or(overlay, 0) as usize,
            result.seed == given_or(seed, seed_default),
            result.extra_members@.len() == 0,
            result.refine_steps == given_or(steps, 0) as usize,
            result.refine_lr == given_or(refine_lr, Scalar { bits: REFINE_LR_BITS }),
    {
        StackedInferenceConfig {
            overlay_density: match overlay {
                Some(n) => n as usize,
                None => 0,
            },
            seed: match seed {
                Some(n) => n,
                None => seed_default,
            },
            extra_members: Vec::new(),
            refine_steps: match steps {
                Some(n) => n as usize,
                None => 0,
            },
            refine_lr: match refine_lr {
                Some(value) => value,
                None => Scalar::from_bits(REFINE_LR_BITS),
            },
        }
    }
}

/// A stack passes through exactly where it changes nothing: no overlay, no more than one
/// member, no refinement. A stored stack likewise.
pub proof fn any_stage_makes_a_stack(config: StackedTrainConfig, stored: StackedInferenceConfig)
    ensures
        config.train_overlay_density > 0 ==> !config.passes_through(),
        config.ensemble_size > 1 ==> !config.passes_through(),
        config.refine_steps > 0 ==> !config.passes_through(),
        config.train_overlay_density == 0 && config.ensemble_size <= 1 && config.refine_steps
            == 0 ==> config.passes_through(),
        stored.overlay_density > 0 ==> !stored.passes_through(),
        stored.extra_members@.len() > 0 ==> !stored.passes_through(),
        stored.refine_steps > 0 ==> !stored.passes_through(),
        stored.overlay_density == 0 && stored.extra_members@.len() == 0 && stored.refine_steps
            == 0 ==> stored.passes_through(),
{
}

/// A stored stack has what its settings say and, where they say nothing, no overlay, no
/// refinement, the standing rate of refinement and the seed that it is handed.
pub proof fn missing_settings_have_standing_values(
    stack: StackedInferenceConfig,
    config_json: Seq<char>,
    refine_lr: Option<Scalar>,
    seed_default: u64,
)
    requires
        stack.reads(config_json, refine_lr, seed_default),
    ensures
        json_u64_field(config_json, "m10_train_overlay_density"@) is None
            ==> stack.overlay_density == 0,
        json_u64_field(config_json, "m10_train_overlay_density"@) matches Some(n)
            ==> stack.overlay_density == n as usize,
        json_u64_field(config_json, "m10_refine_steps"@) is None ==> stack.refine_steps == 0,
        json_u64_field(config_json, "m10_refine_steps"@) matches Some(n) ==> stack.refine_steps
            == n as usize,
        json_u64_field(config_json, "seed"@) is None ==> stack.seed == seed_default,
        json_u64_field(config_json, "seed"@) matches Some(n) ==> stack.seed == n,
        refine_lr matches Some(lr) ==> stack.refine_lr == lr,
        refine_lr is None ==> stack.refine_lr.bits == REFINE_LR_BITS,
        stack.extra_members@.len() == 0,
{
}

/// A stack has the stages that were set, each in its own field.
pub proof fn stages_are_what_was_set(
    config: StackedTrainConfig,
    base: TrainConfig,
    overlay: usize,
    members: usize,
    steps: usize,
    lr: Scalar,
)
    requires
        config.stages(base, overlay, members, steps, lr),
    ensures
        config.base == base,
        config.train_overlay_density == overlay,
        config.ensemble_size == members,
        config.refine_steps == steps,
        config.refine_lr == lr,
{
}

/// Models that are the same have one family, width, activation and dropout, and one
/// normalization.
pub proof fn same_models_agree_in_everything(a: ModelConfig, b: ModelConfig)
    requires
        a.same_as(b),
    ensures
        a.family() == b.family(),
        a.width() == b.width(),
        a.dropout_rate() == b.dropout_rate(),
        a is Real ==> a->activation@ == b->activation@ && a->Real_norm@ == b->Real_norm@,
        a is Complex ==> a->complex_activation@ == b->complex_activation@ && a->Complex_norm
            == b->Complex_norm,
{
}

/// A model is complex exactly where it has a complex activation; it has the width and the
/// dropout that were set, whatever its family.
pub proof fn models_are_what_was_set(
    hidden_size: usize,
    activation: String,
    dropout: Scalar,
    real_norm: String,
    complex_norm: ComplexNorm,
)
    ensures
        ({
            let plain = ModelConfig::Real { hidden_size, activation, dropout, norm: real_norm };
            let complex = ModelConfig::Complex {
                hidden_size,
                complex_activation: activation,
                dropout,
                norm: complex_norm,
            };
            &&& plain.family() is Real
            &&& complex.family() is Complex
            &&& plain.width() == hidden_size && complex.width() == hidden_size
            &&& plain.dropout_rate() == dropout && complex.dropout_rate() == dropout
        }),
        described(ModelType::Real, hidden_size) == "Real MLP (4-"@ + decimal_digits(
            hidden_size as nat,
        ) + "-2)"@,
        described(ModelType::Complex, hidden_size) == "Complex MLP (2c-"@ + decimal_digits(
            hidden_size as nat,
        ) + "c-1c)"@,
{
}

} // verus!

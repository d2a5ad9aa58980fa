//! Settings of a training run: a configuration file comes before the command
//! line, and the command line before the defaults.

use super::shared::{
    either, first_given, given_text, pick, pick_optional, pick_text,
};
use crate::base::error::CoreError;
use crate::model::{model_type_named, unknown_model_type, ModelType};
use crate::paths::{checkpoint_file, weights_path};
use crate::scalar::Scalar;
use crate::workflows::config::{ComplexNorm, ModelConfig, TrainConfig};
use crate::workflows::train_form::TrainSplits;
use vstd::prelude::*;

verus! {

/// Settings of a training run, as far as they were given.
#[derive(Debug, Default)]
pub struct TrainArgs {
    pub data_dir: Option<String>,
    pub output_dir: Option<String>,
    pub model_type: Option<String>,
    pub hidden_size: Option<usize>,
    pub activation: Option<String>,
    pub complex_activation: Option<String>,
    pub optimizer: Option<String>,
    pub lr: Option<Scalar>,
    pub weight_decay: Option<Scalar>,
    pub batch_size: Option<String>,
    pub max_epochs: Option<usize>,
    pub patience: Option<usize>,
    pub warmup_epochs: Option<usize>,
    pub scheduler: Option<String>,
    pub dropout: Option<Scalar>,
    pub norm: Option<String>,
    pub loss: Option<String>,
    pub grad_clip_norm: Option<Scalar>,
    pub input_noise_std: Option<Scalar>,
    pub cosine_eta_min: Option<Scalar>,
    pub plateau_factor: Option<Scalar>,
    pub plateau_patience: Option<usize>,
    pub plateau_min_lr: Option<Scalar>,
    pub sgd_momentum: Option<Scalar>,
    pub sgd_nesterov: Option<bool>,
    pub rmsprop_momentum: Option<Scalar>,
    pub rmsprop_alpha: Option<Scalar>,
    pub pi_mape_beta: Option<Scalar>,
    pub physics_lambda: Option<Scalar>,
    pub shuffle_seed: Option<u64>,
    pub name: Option<String>,
}

/// Settings of a training run.
#[derive(Debug)]
pub struct TrainSettings {
    pub data_dir: String,
    pub output_dir: String,
    pub model_type: String,
    pub hidden_size: usize,
    pub activation: String,
    pub complex_activation: String,
    pub optimizer: String,
    pub lr: Scalar,
    pub weight_decay: Scalar,
    pub batch_size: String,
    pub max_epochs: usize,
    pub patience: usize,
    pub warmup_epochs: usize,
    pub scheduler: String,
    pub dropout: Scalar,
    pub norm: String,
    pub loss: String,
    pub grad_clip_norm: Option<Scalar>,
    pub input_noise_std: Option<Scalar>,
    pub cosine_eta_min: Option<Scalar>,
    pub plateau_factor: Option<Scalar>,
    pub plateau_patience: Option<usize>,
    pub plateau_min_lr: Option<Scalar>,
    pub sgd_momentum: Option<Scalar>,
    pub sgd_nesterov: Option<bool>,
    pub rmsprop_momentum: Option<Scalar>,
    pub rmsprop_alpha: Option<Scalar>,
    pub pi_mape_beta: Option<Scalar>,
    pub physics_lambda: Option<Scalar>,
    pub shuffle_seed: Option<u64>,
}

/// The pattern of 0.001, the default learning rate.
pub const DEFAULT_LR_BITS: u64 = 0x3f50_624d_d2f1_a9fc;

/// The pattern of 0.0001, the default weight decay.
pub const DEFAULT_WEIGHT_DECAY_BITS: u64 = 0x3f1a_36e2_eb1c_432d;

/// A text setting comes from `file`, else from `line`, else is `default`.
pub open spec fn text_from(
    result: String,
    file: Option<String>,
    line: Option<String>,
    default: Seq<char>,
) -> bool {
    result@ == first_given(given_text(file), given_text(line), default)
}

impl TrainSettings {
    /// Every setting comes from the configuration file, else from the command
    /// line, else from the defaults. Settings without a default may stay open.
    pub open spec fn combines(&self, file: TrainArgs, line: TrainArgs) -> bool {
        &&& text_from(self.data_dir, file.data_dir, line.data_dir, "./data"@)
        &&& text_from(self.output_dir, file.output_dir, line.output_dir, "./artifacts"@)
        &&& text_from(self.model_type, file.model_type, line.model_type, "real"@)
        &&& self.hidden_size == first_given(file.hidden_size, line.hidden_size, 32)
        &&& text_from(self.activation, file.activation, line.activation, "gelu"@)
        &&& text_from(
            self.complex_activation,
            file.complex_activation,
            line.complex_activation,
            "crelu"@,
        )
        &&& text_from(self.optimizer, file.optimizer, line.optimizer, "adamw"@)
        &&& self.lr == first_given(file.lr, line.lr, Scalar { bits: DEFAULT_LR_BITS })
        &&& self.weight_decay == first_given(
            file.weight_decay,
            line.weight_decay,
            Scalar { bits: DEFAULT_WEIGHT_DECAY_BITS },
        )
        &&& text_from(self.batch_size, file.batch_size, line.batch_size, "256"@)
        &&& self.max_epochs == first_given(file.max_epochs, line.max_epochs, 500)
        &&& self.patience == first_given(file.patience, line.patience, 30)
        &&& self.warmup_epochs == first_given(file.warmup_epochs, line.warmup_epochs, 10)
        &&& text_from(self.scheduler, file.scheduler, line.scheduler, "cosine"@)
        &&& self.dropout == first_given(file.dropout, line.dropout, Scalar { bits: 0 })
        &&& text_from(self.norm, file.norm, line.norm, "layernorm"@)
        &&& text_from(self.loss, file.loss, line.loss, "mse"@)
        &&& self.grad_clip_norm == either(file.grad_clip_norm, line.grad_clip_norm)
        &&& self.input_noise_std == either(file.input_noise_std, line.input_noise_std)
        &&& self.cosine_eta_min == either(file.cosine_eta_min, line.cosine_eta_min)
        &&& self.plateau_factor == either(file.plateau_factor, line.plateau_factor)
        &&& self.plateau_patience == either(file.plateau_patience, line.plateau_patience)
        &&& self.plateau_min_lr == either(file.plateau_min_lr, line.plateau_min_lr)
        &&& self.sgd_momentum == either(file.sgd_momentum, line.sgd_momentum)
        &&& self.sgd_nesterov == either(file.sgd_nesterov, line.sgd_nesterov)
        &&& self.rmsprop_momentum == either(file.rmsprop_momentum, line.rmsprop_momentum)
        &&& self.rmsprop_alpha == either(file.rmsprop_alpha, line.rmsprop_alpha)
        &&& self.pi_mape_beta == either(file.pi_mape_beta, line.pi_mape_beta)
        &&& self.physics_lambda == either(file.physics_lambda, line.physics_lambda)
        &&& self.shuffle_seed == either(file.shuffle_seed, line.shuffle_seed)
    }
}

/// Combines the settings of a configuration file and a command line.
pub fn combine_train_args(file: &TrainArgs, line: &TrainArgs) -> (result: TrainSettings)
    ensures
        result.combines(*file, *line),
{
    TrainSettings {
        data_dir: pick_text(&file.data_dir, &line.data_dir, "./data"),
        output_dir: pick_text(&file.output_dir, &line.output_dir, "./artifacts"),
        model_type: pick_text(&file.model_type, &line.model_type, "real"),
        hidden_size: pick(file.hidden_size, line.hidden_size, 32),
        activation: pick_text(&file.activation, &line.activation, "gelu"),
        complex_activation: pick_text(
            &file.complex_activation,
            &line.complex_activation,
            "crelu",
        ),
        optimizer: pick_text(&file.optimizer, &line.optimizer, "adamw"),
        lr: pick(file.lr, line.lr, Scalar::from_bits(DEFAULT_LR_BITS)),
        weight_decay: pick(
            file.weight_decay,
            line.weight_decay,
            Scalar::from_bits(DEFAULT_WEIGHT_DECAY_BITS),
        ),
        batch_size: pick_text(&file.batch_size, &line.batch_size, "256"),
        max_epochs: pick(file.max_epochs, line.max_epochs, 500),
        patience: pick(file.patience, line.patience, 30),
        warmup_epochs: pick(file.warmup_epochs, line.warmup_epochs, 10),
        scheduler: pick_text(&file.scheduler, &line.scheduler, "cosine"),
        dropout: pick(file.dropout, line.dropout, Scalar::zero()),
        norm: pick_text(&file.norm, &line.norm, "layernorm"),
        loss: pick_text(&file.loss, &line.loss, "mse"),
        grad_clip_norm: pick_optional(file.grad_clip_norm, line.grad_clip_norm),
        input_noise_std: pick_optional(file.input_noise_std, line.input_noise_std),
        cosine_eta_min: pick_optional(file.cosine_eta_min, line.cosine_eta_min),
        plateau_factor: pick_optional(file.plateau_factor, line.plateau_factor),
        plateau_patience: pick_optional(file.plateau_patience, line.plateau_patience),
        plateau_min_lr: pick_optional(file.plateau_min_lr, line.plateau_min_lr),
        sgd_momentum: pick_optional(file.sgd_momentum, line.sgd_momentum),
        sgd_nesterov: pick_optional(file.sgd_nesterov, line.sgd_nesterov),
        rmsprop_momentum: pick_optional(file.rmsprop_momentum, line.rmsprop_momentum),
        rmsprop_alpha: pick_optional(file.rmsprop_alpha, line.rmsprop_alpha),
        pi_mape_beta: pick_optional(file.pi_mape_beta, line.pi_mape_beta),
        physics_lambda: pick_optional(file.physics_lambda, line.physics_lambda),
        shuffle_seed: pick_optional(file.shuffle_seed, line.shuffle_seed),
    }
}

/// The name of an experiment that was not given one.
pub open spec fn default_experiment(model_type: ModelType) -> Seq<char> {
    match model_type {
        ModelType::Real => "real_train"@,
        ModelType::Complex => "complex_train"@,
    }
}

/// The name of an experiment. Here the command line comes before the configuration
/// file.
pub fn experiment_name(
    line: &Option<String>,
    file: &Option<String>,
    model_type: ModelType,
) -> (result: String)
    ensures
        text_from(result, *line, *file, default_experiment(model_type)),
{
    let default = match model_type {
        ModelType::Real => "real_train",
        ModelType::Complex => "complex_train",
    };
    pick_text(line, file, default)
}

/// The model that settings describe, with the activation under that name.
pub open spec fn settings_model(
    settings: TrainSettings,
    model_type: ModelType,
    activation: String,
) -> ModelConfig {
    match model_type {
        ModelType::Real => ModelConfig::Real {
            hidden_size: settings.hidden_size,
            activation,
            dropout: settings.dropout,
            norm: settings.norm,
        },
        ModelType::Complex => ModelConfig::Complex {
            hidden_size: settings.hidden_size,
            complex_activation: activation,
            dropout: settings.dropout,
            norm: ComplexNorm::LayerNorm,
        },
    }
}

impl TrainConfig {
    /// The run that settings describe, over the samples: its weights are written to
    /// a file, and its progress is told.
    pub open spec fn is_run_with(
        &self,
        settings: TrainSettings,
        splits: TrainSplits,
        model: ModelConfig,
        checkpoint_path: String,
        checkpoint: Option<String>,
        seed: u64,
    ) -> bool {
        &&& self.train_samples == splits.train
        &&& self.val_samples == splits.val
        &&& self.test_samples == splits.test
        &&& self.checkpoint_path == Some(checkpoint_path)
        &&& self.model == model
        &&& self.optimizer == settings.optimizer
        &&& self.lr == settings.lr
        &&& self.weight_decay == settings.weight_decay
        &&& self.batch_size == settings.batch_size
        &&& self.max_epochs == settings.max_epochs
        &&& self.patience == settings.patience
        &&& self.warmup_epochs == settings.warmup_epochs
        &&& self.scheduler == settings.scheduler
        &&& self.loss == settings.loss
        &&& self.checkpoint == checkpoint
        &&& self.seed == seed
        &&& self.log_progress
        &&& self.shuffle_seed == settings.shuffle_seed
        &&& self.grad_clip_norm == settings.grad_clip_norm
        &&& self.input_noise_std == settings.input_noise_std
        &&& self.cosine_eta_min == settings.cosine_eta_min
        &&& self.plateau_factor == settings.plateau_factor
        &&& self.plateau_patience == settings.plateau_patience
        &&& self.plateau_min_lr == settings.plateau_min_lr
        &&& self.sgd_momentum == settings.sgd_momentum
        &&& self.sgd_nesterov == settings.sgd_nesterov
        &&& self.rmsprop_momentum == settings.rmsprop_momentum
        &&& self.rmsprop_alpha == settings.rmsprop_alpha
        &&& self.pi_mape_beta == settings.pi_mape_beta
        &&& self.physics_lambda == settings.physics_lambda
    }
}

/// The run that settings describe, with its weights written to `checkpoint_path`.
/// `activation` is what the family's table says of the activation that the settings name.
pub fn training_run_at(
    settings: TrainSettings,
    splits: TrainSplits,
    activation: Result<String, String>,
    checkpoint_path: String,
    checkpoint: Option<String>,
    seed: u64,
) -> (result: Result<TrainConfig, CoreError>)
    ensures
        result is Ok <==> model_type_named(settings.model_type@) is Some && activation is Ok,
        result matches Err(e) ==> e.says(
            if model_type_named(settings.model_type@) is None {
                unknown_model_type(settings.model_type@)
            } else {
                activation->Err_0@
            },
        ),
        result matches Ok(config) ==> config.is_run_with(
            settings,
            splits,
            settings_model(
                settings,
                model_type_named(settings.model_type@)->0,
                activation->Ok_0,
            ),
            checkpoint_path,
            checkpoint,
            seed,
        ),
{
    let model_type = match ModelType::from_name(settings.model_type.as_str()) {
        Ok(model_type) => model_type,
        Err(e) => return Err(e),
    };
    let built = match model_type {
        ModelType::Complex => ModelConfig::complex(
            settings.hidden_size,
            activation,
            settings.dropout,
        ),
        ModelType::Real => ModelConfig::real_model(
            settings.hidden_size,
            activation,
            settings.dropout,
            settings.norm,
        ),
    };
    let model = match built {
        Ok(model) => model,
        Err(e) => return Err(e),
    };
    Ok(
        TrainConfig {
            train_samples: splits.train,
            val_samples: splits.val,
            test_samples: splits.test,
            checkpoint_path: Some(checkpoint_path),
            model,
            optimizer: settings.optimizer,
            lr: settings.lr,
            weight_decay: settings.weight_decay,
            batch_size: settings.batch_size,
            max_epochs: settings.max_epochs,
            patience: settings.patience,
            warmup_epochs: settings.warmup_epochs,
            scheduler: settings.scheduler,
            loss: settings.loss,
            checkpoint,
            seed,
            log_progress: true,
            shuffle_seed: settings.shuffle_seed,
            grad_clip_norm: settings.grad_clip_norm,
            input_noise_std: settings.input_noise_std,
            cosine_eta_min: settings.cosine_eta_min,
            plateau_factor: settings.plateau_factor,
            plateau_patience: settings.plateau_patience,
            plateau_min_lr: settings.plateau_min_lr,
            sgd_momentum: settings.sgd_momentum,
            sgd_nesterov: settings.sgd_nesterov,
            rmsprop_momentum: settings.rmsprop_momentum,
            rmsprop_alpha: settings.rmsprop_alpha,
            pi_mape_beta: settings.pi_mape_beta,
            physics_lambda: settings.physics_lambda,
        },
    )
}

/// The run that settings describe, with its weights written to the directory of its name
/// under the output directory. `line_name` and `file_name` are the names that the command
/// line and the configuration file give to the experiment.
pub fn training_run(
    settings: TrainSettings,
    splits: TrainSplits,
    activation: Result<String, String>,
    line_name: &Option<String>,
    file_name: &Option<String>,
    checkpoint: Option<String>,
    seed: u64,
) -> (result: Result<TrainConfig, CoreError>)
    ensures
        result is Ok <==> model_type_named(settings.model_type@) is Some && activation is Ok,
        result matches Err(e) ==> e.says(
            if model_type_named(settings.model_type@) is None {
                unknown_model_type(settings.model_type@)
            } else {
                activation->Err_0@
            },
        ),
        result matches Ok(config) ==> {
            let model_type = model_type_named(settings.model_type@)->0;
            &&& config.checkpoint_path is Some
            &&& config.checkpoint_path->0@ == weights_path(
                settings.output_dir@,
                first_given(
                    given_text(*line_name),
                    given_text(*file_name),
                    default_experiment(model_type),
                ),
            )
            &&& config.is_run_with(
                settings,
                splits,
                settings_model(settings, model_type, activation->Ok_0),
                config.checkpoint_path->0,
                checkpoint,
                seed,
            )
        },
{
    let model_type = match ModelType::from_name(settings.model_type.as_str()) {
        Ok(model_type) => model_type,
        Err(e) => return Err(e),
    };
    let name = experiment_name(line_name, file_name, model_type);
    let path = checkpoint_file(settings.output_dir.as_str(), name.as_str());
    training_run_at(settings, splits, activation, path, checkpoint, seed)
}

/// What a configuration file sets, a run has, whatever the command line says.
pub proof fn files_come_before_the_line(file: TrainArgs, line: TrainArgs, settings: TrainSettings)
    requires
        settings.combines(file, line),
    ensures
        file.data_dir is Some ==> settings.data_dir@ == file.data_dir->0@,
        file.output_dir is Some ==> settings.output_dir@ == file.output_dir->0@,
        file.model_type is Some ==> settings.model_type@ == file.model_type->0@,
        file.activation is Some ==> settings.activation@ == file.activation->0@,
        file.complex_activation is Some ==> settings.complex_activation@ == file.complex_activation->0@,
        file.optimizer is Some ==> settings.optimizer@ == file.optimizer->0@,
        file.batch_size is Some ==> settings.batch_size@ == file.batch_size->0@,
        file.scheduler is Some ==> settings.scheduler@ == file.scheduler->0@,
        file.norm is Some ==> settings.norm@ == file.norm->0@,
        file.loss is Some ==> settings.loss@ == file.loss->0@,
        file.hidden_size is Some ==> settings.hidden_size == file.hidden_size->0,
        file.lr is Some ==> settings.lr == file.lr->0,
        file.weight_decay is Some ==> settings.weight_decay == file.weight_decay->0,
        file.max_epochs is Some ==> settings.max_epochs == file.max_epochs->0,
        file.patience is Some ==> settings.patience == file.patience->0,
        file.warmup_epochs is Some ==> settings.warmup_epochs == file.warmup_epochs->0,
        file.dropout is Some ==> settings.dropout == file.dropout->0,
        file.grad_clip_norm is Some ==> settings.grad_clip_norm == file.grad_clip_norm,
        file.input_noise_std is Some ==> settings.input_noise_std == file.input_noise_std,
        file.cosine_eta_min is Some ==> settings.cosine_eta_min == file.cosine_eta_min,
        file.plateau_factor is Some ==> settings.plateau_factor == file.plateau_factor,
        file.plateau_patience is Some ==> settings.plateau_patience == file.plateau_patience,
        file.plateau_min_lr is Some ==> settings.plateau_min_lr == file.plateau_min_lr,
        file.sgd_momentum is Some ==> settings.sgd_momentum == file.sgd_momentum,
        file.sgd_nesterov is Some ==> settings.sgd_nesterov == file.sgd_nesterov,
        file.rmsprop_momentum is Some ==> settings.rmsprop_momentum == file.rmsprop_momentum,
        file.rmsprop_alpha is Some ==> settings.rmsprop_alpha == file.rmsprop_alpha,
        file.pi_mape_beta is Some ==> settings.pi_mape_beta == file.pi_mape_beta,
        file.physics_lambda is Some ==> settings.physics_lambda == file.physics_lambda,
        file.shuffle_seed is Some ==> settings.shuffle_seed == file.shuffle_seed,
{
}

/// What a configuration file leaves open, the command line may set.
pub proof fn the_line_comes_before_the_defaults(file: TrainArgs, line: TrainArgs, settings: TrainSettings)
    requires
        settings.combines(file, line),
    ensures
        file.data_dir is None && line.data_dir is Some ==> settings.data_dir@ == line.data_dir->0@,
        file.output_dir is None && line.output_dir is Some ==> settings.output_dir@ == line.output_dir->0@,
        file.model_type is None && line.model_type is Some ==> settings.model_type@ == line.model_type->0@,
        file.activation is None && line.activation is Some ==> settings.activation@ == line.activation->0@,
        file.complex_activation is None && line.complex_activation is Some ==> settings.complex_activation@ == line.complex_activation->0@,
        file.optimizer is None && line.optimizer is Some ==> settings.optimizer@ == line.optimizer->0@,
        file.batch_size is None && line.batch_size is Some ==> settings.batch_size@ == line.batch_size->0@,
        file.scheduler is None && line.scheduler is Some ==> settings.scheduler@ == line.scheduler->0@,
        file.norm is None && line.norm is Some ==> settings.norm@ == line.norm->0@,
        file.loss is None && line.loss is Some ==> settings.loss@ == line.loss->0@,
        file.hidden_size is None && line.hidden_size is Some ==> settings.hidden_size == line.hidden_size->0,
        file.lr is None && line.lr is Some ==> settings.lr == line.lr->0,
        file.weight_decay is None && line.weight_decay is Some ==> settings.weight_decay == line.weight_decay->0,
        file.max_epochs is None && line.max_epochs is Some ==> settings.max_epochs == line.max_epochs->0,
        file.patience is None && line.patience is Some ==> settings.patience == line.patience->0,
        file.warmup_epochs is None && line.warmup_epochs is Some ==> settings.warmup_epochs == line.warmup_epochs->0,
        file.dropout is None && line.dropout is Some ==> settings.dropout == line.dropout->0,
        file.grad_clip_norm is None ==> settings.grad_clip_norm == line.grad_clip_norm,
        file.input_noise_std is None ==> settings.input_noise_std == line.input_noise_std,
        file.cosine_eta_min is None ==> settings.cosine_eta_min == line.cosine_eta_min,
        file.plateau_factor is None ==> settings.plateau_factor == line.plateau_factor,
        file.plateau_patience is None ==> settings.plateau_patience == line.plateau_patience,
        file.plateau_min_lr is None ==> settings.plateau_min_lr == line.plateau_min_lr,
        file.sgd_momentum is None ==> settings.sgd_momentum == line.sgd_momentum,
        file.sgd_nesterov is None ==> settings.sgd_nesterov == line.sgd_nesterov,
        file.rmsprop_momentum is None ==> settings.rmsprop_momentum == line.rmsprop_momentum,
        file.rmsprop_alpha is None ==> settings.rmsprop_alpha == line.rmsprop_alpha,
        file.pi_mape_beta is None ==> settings.pi_mape_beta == line.pi_mape_beta,
        file.physics_lambda is None ==> settings.physics_lambda == line.physics_lambda,
        file.shuffle_seed is None ==> settings.shuffle_seed == line.shuffle_seed,
{
}

/// What neither sets has its standing value, or stays open where it has none.
pub proof fn settings_that_nobody_gave_are_standard(file: TrainArgs, line: TrainArgs, settings: TrainSettings)
    requires
        settings.combines(file, line),
    ensures
        file.data_dir is None && line.data_dir is None ==> settings.data_dir@ == "./data"@,
        file.output_dir is None && line.output_dir is None ==> settings.output_dir@ == "./artifacts"@,
        file.model_type is None && line.model_type is None ==> settings.model_type@ == "real"@,
        file.activation is None && line.activation is None ==> settings.activation@ == "gelu"@,
        file.complex_activation is None && line.complex_activation is None ==> settings.complex_activation@ == "crelu"@,
        file.optimizer is None && line.optimizer is None ==> settings.optimizer@ == "adamw"@,
        file.batch_size is None && line.batch_size is None ==> settings.batch_size@ == "256"@,
        file.scheduler is None && line.scheduler is None ==> settings.scheduler@ == "cosine"@,
        file.norm is None && line.norm is None ==> settings.norm@ == "layernorm"@,
        file.loss is None && line.loss is None ==> settings.loss@ == "mse"@,
        file.hidden_size is None && line.hidden_size is None ==> settings.hidden_size == 32,
        file.lr is None && line.lr is None ==> settings.lr.bits == 0x3f50_624d_d2f1_a9fc,
        file.weight_decay is None && line.weight_decay is None ==> settings.weight_decay.bits == 0x3f1a_36e2_eb1c_432d,
        file.max_epochs is None && line.max_epochs is None ==> settings.max_epochs == 500,
        file.patience is None && line.patience is None ==> settings.patience == 30,
        file.warmup_epochs is None && line.warmup_epochs is None ==> settings.warmup_epochs == 10,
        file.dropout is None && line.dropout is None ==> settings.dropout.bits == 0,
        file.grad_clip_norm is None && line.grad_clip_norm is None ==> settings.grad_clip_norm is None,
        file.input_noise_std is None && line.input_noise_std is None ==> settings.input_noise_std is None,
        file.cosine_eta_min is None && line.cosine_eta_min is None ==> settings.cosine_eta_min is None,
        file.plateau_factor is None && line.plateau_factor is None ==> settings.plateau_factor is None,
        file.plateau_patience is None && line.plateau_patience is None ==> settings.plateau_patience is None,
        file.plateau_min_lr is None && line.plateau_min_lr is None ==> settings.plateau_min_lr is None,
        file.sgd_momentum is None && line.sgd_momentum is None ==> settings.sgd_momentum is None,
        file.sgd_nesterov is None && line.sgd_nesterov is None ==> settings.sgd_nesterov is None,
        file.rmsprop_momentum is None && line.rmsprop_momentum is None ==> settings.rmsprop_momentum is None,
        file.rmsprop_alpha is None && line.rmsprop_alpha is None ==> settings.rmsprop_alpha is None,
        file.pi_mape_beta is None && line.pi_mape_beta is None ==> settings.pi_mape_beta is None,
        file.physics_lambda is None && line.physics_lambda is None ==> settings.physics_lambda is None,
        file.shuffle_seed is None && line.shuffle_seed is None ==> settings.shuffle_seed is None,
{
}

/// A run has every setting that it was given, its samples split by split, and the model of
/// its family; its progress is told.
pub proof fn runs_have_their_settings(
    config: TrainConfig,
    settings: TrainSettings,
    splits: TrainSplits,
    model: ModelConfig,
    checkpoint_path: String,
    checkpoint: Option<String>,
    seed: u64,
)
    requires
        config.is_run_with(settings, splits, model, checkpoint_path, checkpoint, seed),
    ensures
        config.train_samples == splits.train,
        config.val_samples == splits.val,
        config.test_samples == splits.test,
        config.model == model,
        config.checkpoint_path == Some(checkpoint_path),
        config.checkpoint == checkpoint,
        config.seed == seed,
        config.log_progress,
        config.optimizer == settings.optimizer,
        config.lr == settings.lr,
        config.weight_decay == settings.weight_decay,
        config.batch_size == settings.batch_size,
        config.max_epochs == settings.max_epochs,
        config.patience == settings.patience,
        config.warmup_epochs == settings.warmup_epochs,
        config.scheduler == settings.scheduler,
        config.loss == settings.loss,
        config.shuffle_seed == settings.shuffle_seed,
        config.grad_clip_norm == settings.grad_clip_norm,
        config.input_noise_std == settings.input_noise_std,
        config.cosine_eta_min == settings.cosine_eta_min,
        config.plateau_factor == settings.plateau_factor,
        config.plateau_patience == settings.plateau_patience,
        config.plateau_min_lr == settings.plateau_min_lr,
        config.sgd_momentum == settings.sgd_momentum,
        config.sgd_nesterov == settings.sgd_nesterov,
        config.rmsprop_momentum == settings.rmsprop_momentum,
        config.rmsprop_alpha == settings.rmsprop_alpha,
        config.pi_mape_beta == settings.pi_mape_beta,
        config.physics_lambda == settings.physics_lambda,
{
}

/// The model of a run has the width, dropout and activation of the settings. A real model
/// has their normalization too, a complex one always has its own.
pub proof fn models_have_their_settings(settings: TrainSettings, activation: String)
    ensures
        settings_model(settings, ModelType::Real, activation) matches ModelConfig::Real {
            hidden_size,
            activation: used,
            dropout,
            norm,
        } && hidden_size == settings.hidden_size && used == activation && dropout
            == settings.dropout && norm == settings.norm,
        settings_model(settings, ModelType::Complex, activation) matches ModelConfig::Complex {
            hidden_size,
            complex_activation,
            dropout,
            norm,
        } && hidden_size == settings.hidden_size && complex_activation == activation && dropout
            == settings.dropout && norm is LayerNorm,
{
}

/// An experiment is named on the command line, else in the configuration file, else after
/// its family.
pub proof fn experiments_are_named_on_the_line_first(
    name: String,
    line: Option<String>,
    file: Option<String>,
    model_type: ModelType,
)
    requires
        text_from(name, line, file, default_experiment(model_type)),
    ensures
        line is Some ==> name@ == line->0@,
        line is None && file is Some ==> name@ == file->0@,
        line is None && file is None && model_type is Real ==> name@ == "real_train"@,
        line is None && file is None && model_type is Complex ==> name@ == "complex_train"@,
{
}

} // verus!

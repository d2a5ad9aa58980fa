//! The form in which a training run is submitted.

use super::config::{
    described, ComplexNorm, ModelConfig, StackedInferenceConfig, StackedTrainConfig, TrainConfig,
};
use crate::base::error::{joined, PieceView};
use crate::data::generation::PermittivitySample;
use crate::json::{
    counts_outlast_writing, counts_read_back, distinct_keys, double_view, doubles_in, doubles_of,
    field_views, json_field, json_object_text, json_u64_field, object_text, optional_double_view,
    optional_flag_view, optional_integer_view, write_doubles, written_fields, JsonField, JsonValue,
    JsonView,
};
use crate::model::{model_type_named, unknown_model_type, ModelType};
use crate::scalar::Scalar;
use crate::text::{concat2, copy_of, views};
use vstd::prelude::*;

verus! {

/// The pattern of 0.001, the learning rate where none is given.
pub const FORM_LR_BITS: u64 = 0x3f50_624d_d2f1_a9fc;

/// The pattern of 0.01, the weight decay where none is given.
pub const FORM_WEIGHT_DECAY_BITS: u64 = 0x3f84_7ae1_47ae_147b;

/// How many settings a run keeps.
pub const SETTING_COUNT: usize = 32;

/// Why a form cannot be turned into a run.
#[derive(Debug)]
pub struct TrainFormError(pub String);

/// A submitted training run.
#[derive(Debug)]
pub struct TrainForm {
    pub dataset_id: i64,
    pub model_type: String,
    pub hidden_size: usize,
    pub activation: String,
    pub complex_activation: String,
    pub dropout: Scalar,
    pub norm: String,
    pub optimizer: String,
    pub lr: Scalar,
    pub weight_decay: Scalar,
    pub max_epochs: usize,
    pub batch_size: String,
    pub patience: usize,
    pub warmup_epochs: usize,
    pub scheduler: String,
    pub loss: String,
    pub seed: u64,
    pub shuffle_seed: Option<u64>,
    pub grad_clip_norm: Option<Scalar>,
    pub input_noise_std: Option<Scalar>,
    pub cosine_eta_min: Option<Scalar>,
    pub plateau_factor: Option<Scalar>,
    pub plateau_patience: Option<usize>,
    pub plateau_min_lr: Option<Scalar>,
    pub sgd_momentum: Option<Scalar>,
    pub sgd_nesterov: Option<bool>,
    pub rmsprop_momentum: Option<Scalar>,
    pub rmsprop_alpha: Option<Scalar>,
    pub pi_mape_beta: Option<Scalar>,
    pub physics_lambda: Option<Scalar>,
    pub m10_train_overlay_density: usize,
    pub m10_ensemble_size: usize,
    pub m10_refine_steps: usize,
    pub m10_refine_lr: Scalar,
}

/// The samples of a run.
#[derive(Debug)]
pub struct TrainSplits {
    pub train: Vec<PermittivitySample>,
    pub val: Vec<PermittivitySample>,
    pub test: Vec<PermittivitySample>,
}

/// A run that is ready to start.
#[derive(Debug)]
pub struct BuiltTrainSubmission {
    pub model_name: String,
    pub config: TrainConfig,
    /// The settings to keep, as JSON.
    pub config_json: String,
}

/// A run with the stages of the stacked pipeline that is ready to start.
#[derive(Debug)]
pub struct BuiltStackedTrainSubmission {
    pub model_name: String,
    pub config: StackedTrainConfig,
    /// The settings to keep, as JSON.
    pub config_json: String,
}

/// A submitted field that is empty counts as missing.
pub fn empty_as_none(field: Option<String>) -> (result: Option<String>)
    ensures
        result is Some <==> field is Some && field->Some_0@.len() > 0,
        result is Some ==> result == field,
{
    match field {
        Some(text) => {
            if text.as_str().unicode_len() > 0 {
                Some(text)
            } else {
                None
            }
        },
        None => None,
    }
}

/// The model type where none is given.
pub fn default_model_type() -> (result: String)
    ensures
        result@ == "real"@,
{
    copy_of("real")
}

/// The number of hidden units where none is given.
pub fn default_hidden_size() -> (result: usize)
    ensures
        result == 64,
{
    64
}

/// The activation of a real model where none is given.
pub fn default_activation() -> (result: String)
    ensures
        result@ == "gelu"@,
{
    copy_of("gelu")
}

/// The activation of a complex model where none is given.
pub fn default_complex_activation() -> (result: String)
    ensures
        result@ == "crelu"@,
{
    copy_of("crelu")
}

/// The normalization where none is given.
pub fn default_norm() -> (result: String)
    ensures
        result@ == "none"@,
{
    copy_of("none")
}

/// The optimizer where none is given.
pub fn default_optimizer() -> (result: String)
    ensures
        result@ == "adamw"@,
{
    copy_of("adamw")
}

/// The learning rate where none is given.
pub fn default_lr() -> (result: Scalar)
    ensures
        result.bits == FORM_LR_BITS,
{
    Scalar::from_bits(FORM_LR_BITS)
}

/// The weight decay where none is given.
pub fn default_weight_decay() -> (result: Scalar)
    ensures
        result.bits == FORM_WEIGHT_DECAY_BITS,
{
    Scalar::from_bits(FORM_WEIGHT_DECAY_BITS)
}

/// The number of epochs where none is given.
pub fn default_max_epochs() -> (result: usize)
    ensures
        result == 200,
{
    200
}

/// The batch size where none is given.
pub fn default_batch_size() -> (result: String)
    ensures
        result@ == "64"@,
{
    copy_of("64")
}

/// The patience where none is given.
pub fn default_patience() -> (result: usize)
    ensures
        result == 20,
{
    20
}

/// The scheduler where none is given.
pub fn default_scheduler() -> (result: String)
    ensures
        result@ == "cosine"@,
{
    copy_of("cosine")
}

/// The seed where none is given.
pub fn default_seed() -> (result: u64)
    ensures
        result == 42,
{
    42
}

/// The loss where none is given.
pub fn default_loss() -> (result: String)
    ensures
        result@ == "mse"@,
{
    copy_of("mse")
}

/// The number of models where none is given.
pub fn default_ensemble_size() -> (result: usize)
    ensures
        result == 1,
{
    1
}

/// The learning rate of the refinement where none is given.
pub fn default_refine_lr() -> (result: Scalar)
    ensures
        result.bits == FORM_LR_BITS,
{
    Scalar::from_bits(FORM_LR_BITS)
}

/// A count that may be missing, as a 64-bit count.
pub open spec fn wide(value: Option<usize>) -> Option<u64> {
    match value {
        Some(n) => Some(n as u64),
        None => None,
    }
}

fn widened(value: Option<usize>) -> (result: Option<u64>)
    ensures
        result == wide(value),
{
    match value {
        Some(n) => Some(n as u64),
        None => None,
    }
}

/// The normalization of a complex model, as settings name it.
pub open spec fn norm_name(norm: ComplexNorm) -> Seq<char> {
    match norm {
        ComplexNorm::Absent => "none"@,
        ComplexNorm::LayerNorm => "layernorm"@,
    }
}

/// The settings of a model.
pub open spec fn model_settings(model: ModelConfig) -> Seq<(Seq<char>, JsonView)> {
    match model {
        ModelConfig::Real { hidden_size, activation, dropout, norm } => seq![
            ("model_type"@, JsonView::Text(ModelType::Real.label())),
            ("hidden_size"@, JsonView::Integer(hidden_size as u64)),
            ("activation"@, JsonView::Text(activation@)),
            ("dropout"@, double_view(dropout)),
            ("norm"@, JsonView::Text(norm@)),
        ],
        ModelConfig::Complex { hidden_size, complex_activation, dropout, norm } => seq![
            ("model_type"@, JsonView::Text(ModelType::Complex.label())),
            ("hidden_size"@, JsonView::Integer(hidden_size as u64)),
            ("complex_activation"@, JsonView::Text(complex_activation@)),
            ("dropout"@, double_view(dropout)),
            ("norm"@, JsonView::Text(norm_name(norm))),
        ],
    }
}

fn model_fields(model: &ModelConfig) -> (result: Vec<JsonField>)
    ensures
        field_views(result@) == model_settings(*model),
{
    let mut fields: Vec<JsonField> = Vec::new();
    match model {
        ModelConfig::Real { hidden_size, activation, dropout, norm } => {
            fields.push(json_field("model_type", JsonValue::Text(copy_of("real"))));
            fields.push(json_field("hidden_size", JsonValue::Integer(*hidden_size as u64)));
            fields.push(json_field("activation", JsonValue::Text(copy_of(activation))));
            fields.push(json_field("dropout", JsonValue::double(*dropout)));
            fields.push(json_field("norm", JsonValue::Text(copy_of(norm))));
        },
        ModelConfig::Complex { hidden_size, complex_activation, dropout, norm } => {
            let name = match norm {
                ComplexNorm::Absent => "none",
                ComplexNorm::LayerNorm => "layernorm",
            };
            fields.push(json_field("model_type", JsonValue::Text(copy_of("complex"))));
            fields.push(json_field("hidden_size", JsonValue::Integer(*hidden_size as u64)));
            fields.push(
                json_field("complex_activation", JsonValue::Text(copy_of(complex_activation))),
            );
            fields.push(json_field("dropout", JsonValue::double(*dropout)));
            fields.push(json_field("norm", JsonValue::Text(copy_of(name))));
        },
    }
    assert(field_views(fields@) =~= model_settings(*model));
    fields
}

/// The settings that a run keeps besides those of its model.
pub open spec fn hyperparameters(form: TrainForm) -> Seq<(Seq<char>, JsonView)> {
    seq![
        ("optimizer"@, JsonView::Text(form.optimizer@)),
        ("lr"@, double_view(form.lr)),
        ("weight_decay"@, double_view(form.weight_decay)),
        ("max_epochs"@, JsonView::Integer(form.max_epochs as u64)),
        ("batch_size"@, JsonView::Text(form.batch_size@)),
        ("patience"@, JsonView::Integer(form.patience as u64)),
        ("warmup_epochs"@, JsonView::Integer(form.warmup_epochs as u64)),
        ("scheduler"@, JsonView::Text(form.scheduler@)),
        ("loss"@, JsonView::Text(form.loss@)),
        ("seed"@, JsonView::Integer(form.seed)),
        ("shuffle_seed"@, optional_integer_view(form.shuffle_seed)),
        ("grad_clip_norm"@, optional_double_view(form.grad_clip_norm)),
        ("input_noise_std"@, optional_double_view(form.input_noise_std)),
        ("cosine_eta_min"@, optional_double_view(form.cosine_eta_min)),
        ("plateau_factor"@, optional_double_view(form.plateau_factor)),
        ("plateau_patience"@, optional_integer_view(wide(form.plateau_patience))),
        ("plateau_min_lr"@, optional_double_view(form.plateau_min_lr)),
        ("sgd_momentum"@, optional_double_view(form.sgd_momentum)),
        ("sgd_nesterov"@, optional_flag_view(form.sgd_nesterov)),
        ("rmsprop_momentum"@, optional_double_view(form.rmsprop_momentum)),
        ("rmsprop_alpha"@, optional_double_view(form.rmsprop_alpha)),
        ("pi_mape_beta"@, optional_double_view(form.pi_mape_beta)),
        ("physics_lambda"@, optional_double_view(form.physics_lambda)),
        (
            "m10_train_overlay_density"@,
            JsonView::Integer(form.m10_train_overlay_density as u64),
        ),
        ("m10_ensemble_size"@, JsonView::Integer(form.m10_ensemble_size as u64)),
        ("m10_refine_steps"@, JsonView::Integer(form.m10_refine_steps as u64)),
        ("m10_refine_lr"@, double_view(form.m10_refine_lr)),
    ]
}

fn setting_fields(form: &TrainForm) -> (result: Vec<JsonField>)
    ensures
        field_views(result@) == hyperparameters(*form),
{
    let mut fields: Vec<JsonField> = Vec::new();
    fields.push(json_field("optimizer", JsonValue::Text(copy_of(&form.optimizer))));
    fields.push(json_field("lr", JsonValue::double(form.lr)));
    fields.push(json_field("weight_decay", JsonValue::double(form.weight_decay)));
    fields.push(json_field("max_epochs", JsonValue::Integer(form.max_epochs as u64)));
    fields.push(json_field("batch_size", JsonValue::Text(copy_of(&form.batch_size))));
    fields.push(json_field("patience", JsonValue::Integer(form.patience as u64)));
    fields.push(json_field("warmup_epochs", JsonValue::Integer(form.warmup_epochs as u64)));
    fields.push(json_field("scheduler", JsonValue::Text(copy_of(&form.scheduler))));
    fields.push(json_field("loss", JsonValue::Text(copy_of(&form.loss))));
    fields.push(json_field("seed", JsonValue::Integer(form.seed)));
    fields.push(json_field("shuffle_seed", JsonValue::optional_integer(form.shuffle_seed)));
    fields.push(json_field("grad_clip_norm", JsonValue::optional_double(form.grad_clip_norm)));
    fields.push(json_field("input_noise_std", JsonValue::optional_double(form.input_noise_std)));
    fields.push(json_field("cosine_eta_min", JsonValue::optional_double(form.cosine_eta_min)));
    fields.push(json_field("plateau_factor", JsonValue::optional_double(form.plateau_factor)));
    fields.push(
        json_field(
            "plateau_patience",
            JsonValue::optional_integer(widened(form.plateau_patience)),
        ),
    );
    fields.push(json_field("plateau_min_lr", JsonValue::optional_double(form.plateau_min_lr)));
    fields.push(json_field("sgd_momentum", JsonValue::optional_double(form.sgd_momentum)));
    fields.push(json_field("sgd_nesterov", JsonValue::optional_flag(form.sgd_nesterov)));
    fields.push(
        json_field("rmsprop_momentum", JsonValue::optional_double(form.rmsprop_momentum)),
    );
    fields.push(json_field("rmsprop_alpha", JsonValue::optional_double(form.rmsprop_alpha)));
    fields.push(json_field("pi_mape_beta", JsonValue::optional_double(form.pi_mape_beta)));
    fields.push(json_field("physics_lambda", JsonValue::optional_double(form.physics_lambda)));
    fields.push(
        json_field(
            "m10_train_overlay_density",
            JsonValue::Integer(form.m10_train_overlay_density as u64),
        ),
    );
    fields.push(
        json_field("m10_ensemble_size", JsonValue::Integer(form.m10_ensemble_size as u64)),
    );
    fields.push(json_field("m10_refine_steps", JsonValue::Integer(form.m10_refine_steps as u64)));
    fields.push(json_field("m10_refine_lr", JsonValue::double(form.m10_refine_lr)));
    assert(field_views(fields@) =~= hyperparameters(*form));
    fields
}

/// The settings that a run keeps: those of its model, then those of its training.
pub open spec fn run_settings(form: TrainForm, model: ModelConfig) -> Seq<(Seq<char>, JsonView)> {
    model_settings(model) + hyperparameters(form)
}

fn run_fields(form: &TrainForm, model: &ModelConfig) -> (result: Vec<JsonField>)
    ensures
        field_views(result@) == run_settings(*form, *model),
        result@.len() == SETTING_COUNT,
{
    let mut fields = model_fields(model);
    let ghost of_model = fields@;
    let mut more = setting_fields(form);
    let ghost of_training = more@;
    fields.append(&mut more);
    proof {
        assert(field_views(of_model + of_training) =~= field_views(of_model) + field_views(
            of_training,
        ));
        assert(field_views(fields@).len() == fields@.len());
    }
    fields
}

/// Where the setting of a key stands, told by the length, the first and the last but one
/// character of the key.
spec fn setting_place(key: Seq<char>) -> int {
    let n = key.len() as int;
    let first = key[0];
    let late = key[n - 2];
    if n == 2 {
        6
    } else if n == 4 {
        if first == 'n' {
            4
        } else if first == 'l' {
            13
        } else {
            14
        }
    } else if n == 7 {
        3
    } else if n == 8 {
        10
    } else if n == 9 {
        if first == 'o' {
            5
        } else {
            12
        }
    } else if n == 10 {
        if late == 'p' {
            0
        } else if first == 'a' {
            2
        } else if first == 'm' {
            8
        } else {
            9
        }
    } else if n == 11 {
        1
    } else if n == 12 {
        if first == 'w' {
            7
        } else if late == 'e' {
            15
        } else if late == 'u' {
            22
        } else if first == 's' {
            23
        } else {
            26
        }
    } else if n == 13 {
        if first == 'w' {
            11
        } else if first == 'r' {
            25
        } else {
            31
        }
    } else if n == 14 {
        if first == 'g' {
            16
        } else if first == 'c' {
            18
        } else if late == 'o' {
            19
        } else if late == 'l' {
            21
        } else {
            27
        }
    } else if n == 15 {
        17
    } else if n == 16 {
        if first == 'p' {
            20
        } else if first == 'r' {
            24
        } else {
            30
        }
    } else if n == 17 {
        29
    } else if n == 18 {
        2
    } else if n == 25 {
        28
    } else {
        -1
    }
}

/// No two settings of a run have the same key.
proof fn lemma_setting_keys(form: TrainForm, model: ModelConfig)
    ensures
        distinct_keys(run_settings(form, model)),
{
    let settings = run_settings(form, model);
    reveal_strlit("model_type");
    reveal_strlit("hidden_size");
    reveal_strlit("activation");
    reveal_strlit("dropout");
    reveal_strlit("norm");
    reveal_strlit("optimizer");
    reveal_strlit("lr");
    reveal_strlit("weight_decay");
    reveal_strlit("max_epochs");
    reveal_strlit("batch_size");
    reveal_strlit("patience");
    reveal_strlit("warmup_epochs");
    reveal_strlit("scheduler");
    reveal_strlit("loss");
    reveal_strlit("seed");
    reveal_strlit("shuffle_seed");
    reveal_strlit("grad_clip_norm");
    reveal_strlit("input_noise_std");
    reveal_strlit("cosine_eta_min");
    reveal_strlit("plateau_factor");
    reveal_strlit("plateau_patience");
    reveal_strlit("plateau_min_lr");
    reveal_strlit("sgd_momentum");
    reveal_strlit("sgd_nesterov");
    reveal_strlit("rmsprop_momentum");
    reveal_strlit("rmsprop_alpha");
    reveal_strlit("pi_mape_beta");
    reveal_strlit("physics_lambda");
    reveal_strlit("m10_train_overlay_density");
    reveal_strlit("m10_ensemble_size");
    reveal_strlit("m10_refine_steps");
    reveal_strlit("m10_refine_lr");
    reveal_strlit("complex_activation");
    assert(settings[0].0 == "model_type"@ && setting_place("model_type"@) == 0);
    assert(settings[1].0 == "hidden_size"@ && setting_place("hidden_size"@) == 1);
    assert(settings[3].0 == "dropout"@ && setting_place("dropout"@) == 3);
    assert(settings[4].0 == "norm"@ && setting_place("norm"@) == 4);
    assert(settings[5].0 == "optimizer"@ && setting_place("optimizer"@) == 5);
    assert(settings[6].0 == "lr"@ && setting_place("lr"@) == 6);
    assert(settings[7].0 == "weight_decay"@ && setting_place("weight_decay"@) == 7);
    assert(settings[8].0 == "max_epochs"@ && setting_place("max_epochs"@) == 8);
    assert(settings[9].0 == "batch_size"@ && setting_place("batch_size"@) == 9);
    assert(settings[10].0 == "patience"@ && setting_place("patience"@) == 10);
    assert(settings[11].0 == "warmup_epochs"@ && setting_place("warmup_epochs"@) == 11);
    assert(settings[12].0 == "scheduler"@ && setting_place("scheduler"@) == 12);
    assert(settings[13].0 == "loss"@ && setting_place("loss"@) == 13);
    assert(settings[14].0 == "seed"@ && setting_place("seed"@) == 14);
    assert(settings[15].0 == "shuffle_seed"@ && setting_place("shuffle_seed"@) == 15);
    assert(settings[16].0 == "grad_clip_norm"@ && setting_place("grad_clip_norm"@) == 16);
    assert(settings[17].0 == "input_noise_std"@ && setting_place("input_noise_std"@) == 17);
    assert(settings[18].0 == "cosine_eta_min"@ && setting_place("cosine_eta_min"@) == 18);
    assert(settings[19].0 == "plateau_factor"@ && setting_place("plateau_factor"@) == 19);
    assert(settings[20].0 == "plateau_patience"@ && setting_place("plateau_patience"@) == 20);
    assert(settings[21].0 == "plateau_min_lr"@ && setting_place("plateau_min_lr"@) == 21);
    assert(settings[22].0 == "sgd_momentum"@ && setting_place("sgd_momentum"@) == 22);
    assert(settings[23].0 == "sgd_nesterov"@ && setting_place("sgd_nesterov"@) == 23);
    assert(settings[24].0 == "rmsprop_momentum"@ && setting_place("rmsprop_momentum"@) == 24);
    assert(settings[25].0 == "rmsprop_alpha"@ && setting_place("rmsprop_alpha"@) == 25);
    assert(settings[26].0 == "pi_mape_beta"@ && setting_place("pi_mape_beta"@) == 26);
    assert(settings[27].0 == "physics_lambda"@ && setting_place("physics_lambda"@) == 27);
    assert(settings[28].0 == "m10_train_overlay_density"@ && setting_place("m10_train_overlay_density"@) == 28);
    assert(settings[29].0 == "m10_ensemble_size"@ && setting_place("m10_ensemble_size"@) == 29);
    assert(settings[30].0 == "m10_refine_steps"@ && setting_place("m10_refine_steps"@) == 30);
    assert(settings[31].0 == "m10_refine_lr"@ && setting_place("m10_refine_lr"@) == 31);
    assert(settings[2].0 == "activation"@ || settings[2].0 == "complex_activation"@);
    assert(setting_place("activation"@) == 2 && setting_place("complex_activation"@) == 2);
    assert(settings.len() == 32);
    assert forall|i: int| 0 <= i < settings.len() implies setting_place(
        (#[trigger] settings[i]).0,
    ) == i by {}
}

/// The model that a form describes, with the activation under that name.
pub open spec fn form_model(form: TrainForm, model_type: ModelType, activation: String)
    -> ModelConfig {
    match model_type {
        ModelType::Real => ModelConfig::Real {
            hidden_size: form.hidden_size,
            activation,
            dropout: form.dropout,
            norm: form.norm,
        },
        ModelType::Complex => ModelConfig::Complex {
            hidden_size: form.hidden_size,
            complex_activation: activation,
            dropout: form.dropout,
            norm: ComplexNorm::LayerNorm,
        },
    }
}

impl TrainConfig {
    /// The run that a form describes, over the samples: every setting as submitted,
    /// the weights left in memory.
    pub open spec fn is_run_of(&self, form: TrainForm, splits: TrainSplits, model: ModelConfig)
        -> bool {
        &&& self.train_samples == splits.train
        &&& self.val_samples == splits.val
        &&& self.test_samples == splits.test
        &&& self.checkpoint_path is None
        &&& self.model == model
        &&& self.optimizer == form.optimizer
        &&& self.lr == form.lr
        &&& self.weight_decay == form.weight_decay
        &&& self.batch_size == form.batch_size
        &&& self.max_epochs == form.max_epochs
        &&& self.patience == form.patience
        &&& self.warmup_epochs == form.warmup_epochs
        &&& self.scheduler == form.scheduler
        &&& self.loss == form.loss
        &&& self.checkpoint is None
        &&& self.seed == form.seed
        &&& !self.log_progress
        &&& self.shuffle_seed == form.shuffle_seed
        &&& self.grad_clip_norm == form.grad_clip_norm
        &&& self.input_noise_std == form.input_noise_std
        &&& self.cosine_eta_min == form.cosine_eta_min
        &&& self.plateau_factor == form.plateau_factor
        &&& self.plateau_patience == form.plateau_patience
        &&& self.plateau_min_lr == form.plateau_min_lr
        &&& self.sgd_momentum == form.sgd_momentum
        &&& self.sgd_nesterov == form.sgd_nesterov
        &&& self.rmsprop_momentum == form.rmsprop_momentum
        &&& self.rmsprop_alpha == form.rmsprop_alpha
        &&& self.pi_mape_beta == form.pi_mape_beta
        &&& self.physics_lambda == form.physics_lambda
    }
}

/// Why a form does not describe a model, if it does not: an unknown model type, else an
/// activation that the family does not have.
pub open spec fn refusal(form: TrainForm, activation: Result<String, String>) -> Option<
    Seq<char>,
> {
    if model_type_named(form.model_type@) is None {
        Some(unknown_model_type(form.model_type@))
    } else {
        match activation {
            Ok(_) => None,
            Err(complaint) => Some("invalid activation: "@ + complaint@),
        }
    }
}

/// The settings of a run as JSON, with its doubles written out as `texts`; else what is
/// wrong with one of these.
pub open spec fn kept_text(form: TrainForm, model: ModelConfig, texts: Seq<Seq<char>>) -> Result<
    Seq<char>,
    Seq<char>,
> {
    json_object_text(written_fields(run_settings(form, model), texts))
}

/// The message for settings that cannot be written.
pub open spec fn unwritable(complaint: Seq<char>) -> Seq<char> {
    "serialize config json: "@ + complaint
}

impl TrainForm {
    /// The model that the form describes, where it describes one.
    pub open spec fn described_model(self, activation: Result<String, String>) -> ModelConfig {
        form_model(self, model_type_named(self.model_type@)->Some_0, activation->Ok_0)
    }

    /// The doubles among the settings of the run, each in the place of its setting.
    pub fn doubles(&self) -> (result: Vec<Option<Scalar>>)
        ensures
            forall|model: ModelConfig|
                model.dropout_rate() == self.dropout ==> result@ == doubles_in(
                    #[trigger] run_settings(*self, model),
                ),
            result@.len() == SETTING_COUNT,
    {
        let mut result: Vec<Option<Scalar>> = Vec::new();
        result.push(None);
        result.push(None);
        result.push(None);
        result.push(
            if self.dropout.is_finite() {
                Some(self.dropout)
            } else {
                None
            },
        );
        result.push(None);
        let ghost of_model = result@;
        let more = setting_fields(self);
        let mut of_training = doubles_of(&more);
        let ghost others = of_training@;
        result.append(&mut of_training);
        proof {
            assert(field_views(more@).len() == more@.len());
            assert forall|model: ModelConfig|
                model.dropout_rate() == self.dropout implies result@ == doubles_in(
                #[trigger] run_settings(*self, model),
            ) by {
                assert(of_model =~= doubles_in(model_settings(model)));
                assert(result@ =~= of_model + others);
                assert(doubles_in(run_settings(*self, model)) =~= doubles_in(
                    model_settings(model),
                ) + doubles_in(hyperparameters(*self)));
            }
        }
        result
    }

    /// The model that the form describes. `activation` is what the table of the form's
    /// family says of the activation that the form names: the name to use, or a
    /// complaint.
    pub fn model(&self, activation: Result<String, String>) -> (result: Result<
        ModelConfig,
        TrainFormError,
    >)
        ensures
            result is Ok <==> refusal(*self, activation) is None,
            result matches Err(e) ==> refusal(*self, activation) == Some(e.0@),
            result matches Ok(model) ==> model.same_as(self.described_model(activation)),
    {
        let model_type = match ModelType::from_name(&self.model_type) {
            Ok(model_type) => model_type,
            Err(e) => {
                proof {
                    reveal_with_fuel(joined, 2);
                    assert(e.shown().drop_last() =~= Seq::<PieceView>::empty());
                }
                return Err(TrainFormError(e.to_string()));
            },
        };
        let named = match activation {
            Ok(name) => name,
            Err(complaint) => return Err(
                TrainFormError(concat2("invalid activation: ", &complaint)),
            ),
        };
        Ok(
            match model_type {
                ModelType::Complex => ModelConfig::Complex {
                    hidden_size: self.hidden_size,
                    complex_activation: named,
                    dropout: self.dropout,
                    norm: ComplexNorm::LayerNorm,
                },
                ModelType::Real => ModelConfig::Real {
                    hidden_size: self.hidden_size,
                    activation: named,
                    dropout: self.dropout,
                    norm: copy_of(&self.norm),
                },
            },
        )
    }

    /// The run of a model over the samples, with its settings as JSON, if these could be
    /// written.
    pub fn submission(
        self,
        splits: TrainSplits,
        model: ModelConfig,
        config_json: Result<String, String>,
    ) -> (result: Result<BuiltTrainSubmission, TrainFormError>)
        ensures
            result is Ok <==> config_json is Ok,
            result matches Err(e) ==> e.0@ == unwritable(config_json->Err_0@),
            result matches Ok(built) ==> {
                &&& built.model_name@ == described(model.family(), model.width())
                &&& built.config.is_run_of(self, splits, model)
                &&& config_json == Ok::<String, String>(built.config_json)
            },
    {
        let config_json = match config_json {
            Ok(text) => text,
            Err(complaint) => return Err(
                TrainFormError(concat2("serialize config json: ", &complaint)),
            ),
        };
        let model_name = model.arch_description();
        let config = TrainConfig {
            train_samples: splits.train,
            val_samples: splits.val,
            test_samples: splits.test,
            checkpoint_path: None,
            model,
            optimizer: self.optimizer,
            lr: self.lr,
            weight_decay: self.weight_decay,
            batch_size: self.batch_size,
            max_epochs: self.max_epochs,
            patience: self.patience,
            warmup_epochs: self.warmup_epochs,
            scheduler: self.scheduler,
            loss: self.loss,
            checkpoint: None,
            seed: self.seed,
            log_progress: false,
            shuffle_seed: self.shuffle_seed,
            grad_clip_norm: self.grad_clip_norm,
            input_noise_std: self.input_noise_std,
            cosine_eta_min: self.cosine_eta_min,
            plateau_factor: self.plateau_factor,
            plateau_patience: self.plateau_patience,
            plateau_min_lr: self.plateau_min_lr,
            sgd_momentum: self.sgd_momentum,
            sgd_nesterov: self.sgd_nesterov,
            rmsprop_momentum: self.rmsprop_momentum,
            rmsprop_alpha: self.rmsprop_alpha,
            pi_mape_beta: self.pi_mape_beta,
            physics_lambda: self.physics_lambda,
        };
        Ok(BuiltTrainSubmission { model_name, config, config_json })
    }

    /// The run over the samples, with its settings as JSON. `activation` is what the
    /// table of the form's family says of the activation that the form names, and
    /// `texts` are the doubles of the settings written out, each in the place of its
    /// setting.
    pub fn build(
        self,
        splits: TrainSplits,
        activation: Result<String, String>,
        texts: &Vec<String>,
    ) -> (result: Result<BuiltTrainSubmission, TrainFormError>)
        requires
            texts@.len() == SETTING_COUNT,
        ensures
            ({
                let model = self.described_model(activation);
                let kept = kept_text(self, model, views(texts@));
                &&& result is Ok <==> refusal(self, activation) is None && kept is Ok
                &&& result matches Err(e) ==> e.0@ == match refusal(self, activation) {
                    Some(text) => text,
                    None => unwritable(kept->Err_0),
                }
                &&& result matches Ok(built) ==> {
                    &&& built.model_name@ == described(model.family(), self.hidden_size)
                    &&& built.config.model.same_as(model)
                    &&& built.config.is_run_of(self, splits, built.config.model)
                    &&& kept == Ok::<Seq<char>, Seq<char>>(built.config_json@)
                    &&& counts_read_back(built.config_json@, run_settings(self, model))
                }
            }),
    {
        let model = match self.model(activation) {
            Ok(model) => model,
            Err(e) => return Err(e),
        };
        let fields = run_fields(&self, &model);
        let ghost settings = run_settings(self, model);
        let written = write_doubles(fields, texts);
        proof {
            lemma_setting_keys(self, model);
            counts_outlast_writing(Seq::empty(), settings, views(texts@));
        }
        let config_json = object_text(&written);
        proof {
            if config_json is Ok {
                counts_outlast_writing(config_json->Ok_0@, settings, views(texts@));
            }
        }
        self.submission(splits, model, config_json)
    }

    /// The run over the samples, with the stages that the form asks for. At least
    /// one model is trained.
    pub fn build_stacked(
        self,
        splits: TrainSplits,
        activation: Result<String, String>,
        texts: &Vec<String>,
    ) -> (result: Result<BuiltStackedTrainSubmission, TrainFormError>)
        requires
            texts@.len() == SETTING_COUNT,
        ensures
            ({
                let model = self.described_model(activation);
                let kept = kept_text(self, model, views(texts@));
                &&& result is Ok <==> refusal(self, activation) is None && kept is Ok
                &&& result matches Err(e) ==> e.0@ == match refusal(self, activation) {
                    Some(text) => text,
                    None => unwritable(kept->Err_0),
                }
                &&& result matches Ok(built) ==> {
                    &&& built.model_name@ == described(model.family(), self.hidden_size)
                    &&& built.config.base.model.same_as(model)
                    &&& built.config.base.is_run_of(self, splits, built.config.base.model)
                    &&& built.config.train_overlay_density == self.m10_train_overlay_density
                    &&& built.config.ensemble_size == if self.m10_ensemble_size == 0 {
                        1
                    } else {
                        self.m10_ensemble_size
                    }
                    &&& built.config.refine_steps == self.m10_refine_steps
                    &&& built.config.refine_lr == self.m10_refine_lr
                    &&& kept == Ok::<Seq<char>, Seq<char>>(built.config_json@)
                    &&& counts_read_back(built.config_json@, run_settings(self, model))
                }
            }),
    {
        let train_overlay_density: usize = self.m10_train_overlay_density;
        let asked: usize = self.m10_ensemble_size;
        let refine_steps: usize = self.m10_refine_steps;
        let refine_lr = self.m10_refine_lr;
        match self.build(splits, activation, texts) {
            Ok(built) => {
                let ensemble_size: usize = if asked == 0 {
                    1
                } else {
                    asked
                };
                Ok(
                    BuiltStackedTrainSubmission {
                        model_name: built.model_name,
                        config: StackedTrainConfig {
                            base: built.config,
                            train_overlay_density,
                            ensemble_size,
                            refine_steps,
                            refine_lr,
                        },
                        config_json: built.config_json,
                    },
                )
            },
            Err(e) => Err(e),
        }
    }
}

/// The stages of a run are read back from its settings: what replays the run takes the
/// overlay, the seed and the steps of the form, whatever it would take by default.
pub proof fn stages_are_read_back(
    form: TrainForm,
    model: ModelConfig,
    text: Seq<char>,
    refine_lr: Option<Scalar>,
    seed_default: u64,
    stages: StackedInferenceConfig,
)
    requires
        counts_read_back(text, run_settings(form, model)),
        stages.reads(text, refine_lr, seed_default),
    ensures
        stages.overlay_density == form.m10_train_overlay_density,
        stages.seed == form.seed,
        stages.refine_steps == form.m10_refine_steps,
{
    let settings = run_settings(form, model);
    assert(settings[14] == ("seed"@, JsonView::Integer(form.seed)));
    assert(settings[28] == (
        "m10_train_overlay_density"@,
        JsonView::Integer(form.m10_train_overlay_density as u64),
    ));
    assert(settings[30] == (
        "m10_refine_steps"@,
        JsonView::Integer(form.m10_refine_steps as u64),
    ));
}

/// A run has what its form says, split by split and setting by setting. Its weights stay in
/// memory, and its progress is not told.
pub proof fn forms_hand_on_their_settings(
    config: TrainConfig,
    form: TrainForm,
    splits: TrainSplits,
    model: ModelConfig,
)
    requires
        config.is_run_of(form, splits, model),
    ensures
        config.train_samples == splits.train,
        config.val_samples == splits.val,
        config.test_samples == splits.test,
        config.model == model,
        config.checkpoint_path is None,
        config.checkpoint is None,
        config.seed == form.seed,
        !config.log_progress,
        config.optimizer == form.optimizer,
        config.lr == form.lr,
        config.weight_decay == form.weight_decay,
        config.batch_size == form.batch_size,
        config.max_epochs == form.max_epochs,
        config.patience == form.patience,
        config.warmup_epochs == form.warmup_epochs,
        config.scheduler == form.scheduler,
        config.loss == form.loss,
        config.shuffle_seed == form.shuffle_seed,
        config.grad_clip_norm == form.grad_clip_norm,
        config.input_noise_std == form.input_noise_std,
        config.cosine_eta_min == form.cosine_eta_min,
        config.plateau_factor == form.plateau_factor,
        config.plateau_patience == form.plateau_patience,
        config.plateau_min_lr == form.plateau_min_lr,
        config.sgd_momentum == form.sgd_momentum,
        config.sgd_nesterov == form.sgd_nesterov,
        config.rmsprop_momentum == form.rmsprop_momentum,
        config.rmsprop_alpha == form.rmsprop_alpha,
        config.pi_mape_beta == form.pi_mape_beta,
        config.physics_lambda == form.physics_lambda,
{
}

/// The model of a form has its width, its dropout and the activation that was found; a real
/// model has its normalization too, a complex one always has its own.
pub proof fn forms_describe_their_models(form: TrainForm, activation: String)
    ensures
        form_model(form, ModelType::Real, activation) matches ModelConfig::Real {
            hidden_size,
            activation: used,
            dropout,
            norm,
        } && hidden_size == form.hidden_size && used == activation && dropout == form.dropout
            && norm == form.norm,
        form_model(form, ModelType::Complex, activation) matches ModelConfig::Complex {
            hidden_size,
            complex_activation,
            dropout,
            norm,
        } && hidden_size == form.hidden_size && complex_activation == activation && dropout
            == form.dropout && norm is LayerNorm,
        refusal(form, Ok(activation)) is None <==> model_type_named(form.model_type@) is Some,
        refusal(form, Err(activation)) is Some,
{
}

/// Every count of a form is found again in the settings that are kept of it, under its name.
pub proof fn kept_counts_are_those_of_the_form(
    form: TrainForm,
    model: ModelConfig,
    text: Seq<char>,
)
    requires
        counts_read_back(text, run_settings(form, model)),
    ensures
        json_u64_field(text, "hidden_size"@) == Some(model.width() as u64),
        json_u64_field(text, "max_epochs"@) == Some(form.max_epochs as u64),
        json_u64_field(text, "patience"@) == Some(form.patience as u64),
        json_u64_field(text, "warmup_epochs"@) == Some(form.warmup_epochs as u64),
        json_u64_field(text, "seed"@) == Some(form.seed),
        json_u64_field(text, "m10_train_overlay_density"@) == Some(
            form.m10_train_overlay_density as u64,
        ),
        json_u64_field(text, "m10_ensemble_size"@) == Some(form.m10_ensemble_size as u64),
        json_u64_field(text, "m10_refine_steps"@) == Some(form.m10_refine_steps as u64),
        form.shuffle_seed is Some ==> json_u64_field(text, "shuffle_seed"@) == form.shuffle_seed,
{
    let fields = run_settings(form, model);
    assert(fields[1] == ("hidden_size"@, JsonView::Integer(model.width() as u64)));
    assert(fields[8] == ("max_epochs"@, JsonView::Integer(form.max_epochs as u64)));
    assert(fields[10] == ("patience"@, JsonView::Integer(form.patience as u64)));
    assert(fields[11] == ("warmup_epochs"@, JsonView::Integer(form.warmup_epochs as u64)));
    assert(fields[14] == ("seed"@, JsonView::Integer(form.seed)));
    assert(fields[15] == ("shuffle_seed"@, optional_integer_view(form.shuffle_seed)));
    assert(fields[28].1 is Integer && fields[29].1 is Integer && fields[30].1 is Integer);
}

/// Doubles and names are kept under their own keys, each a double exactly where it is
/// finite.
pub proof fn kept_rates_are_those_of_the_form(form: TrainForm, model: ModelConfig)
    ensures
        run_settings(form, model).contains(("lr"@, double_view(form.lr))),
        run_settings(form, model).contains(("weight_decay"@, double_view(form.weight_decay))),
        run_settings(form, model).contains(("dropout"@, double_view(model.dropout_rate()))),
        run_settings(form, model).contains(("m10_refine_lr"@, double_view(form.m10_refine_lr))),
        run_settings(form, model).contains(("optimizer"@, JsonView::Text(form.optimizer@))),
        run_settings(form, model).contains(("batch_size"@, JsonView::Text(form.batch_size@))),
        run_settings(form, model).contains(("scheduler"@, JsonView::Text(form.scheduler@))),
        run_settings(form, model).contains(("loss"@, JsonView::Text(form.loss@))),
        run_settings(form, model).contains(
            ("grad_clip_norm"@, optional_double_view(form.grad_clip_norm)),
        ),
        run_settings(form, model).contains(
            ("input_noise_std"@, optional_double_view(form.input_noise_std)),
        ),
        form.lr.finite() ==> double_view(form.lr) == JsonView::Double(form.lr),
        !form.lr.finite() ==> double_view(form.lr) is Null,
        optional_double_view(None) is Null,
{
    let fields = run_settings(form, model);
    assert(fields[3] == ("dropout"@, double_view(model.dropout_rate())));
    assert(fields[5] == ("optimizer"@, JsonView::Text(form.optimizer@)));
    assert(fields[6] == ("lr"@, double_view(form.lr)));
    assert(fields[7] == ("weight_decay"@, double_view(form.weight_decay)));
    assert(fields[9] == ("batch_size"@, JsonView::Text(form.batch_size@)));
    assert(fields[12] == ("scheduler"@, JsonView::Text(form.scheduler@)));
    assert(fields[13] == ("loss"@, JsonView::Text(form.loss@)));
    assert(fields[16] == ("grad_clip_norm"@, optional_double_view(form.grad_clip_norm)));
    assert(fields[17] == ("input_noise_std"@, optional_double_view(form.input_noise_std)));
    assert(fields[31] == ("m10_refine_lr"@, double_view(form.m10_refine_lr)));
}

/// What is kept of a model names its family and its settings.
pub proof fn kept_models_name_their_family(model: ModelConfig)
    ensures
        model_settings(model).len() == 5,
        model is Real ==> model_settings(model)[0] == ("model_type"@, JsonView::Text("real"@)),
        model is Complex ==> model_settings(model)[0] == (
            "model_type"@,
            JsonView::Text("complex"@),
        ),
        model_settings(model)[1] == ("hidden_size"@, JsonView::Integer(model.width() as u64)),
        model_settings(model)[3] == ("dropout"@, double_view(model.dropout_rate())),
        model is Real ==> model_settings(model)[2] == (
            "activation"@,
            JsonView::Text(model->activation@),
        ) && model_settings(model)[4] == ("norm"@, JsonView::Text(model->Real_norm@)),
        model is Complex ==> model_settings(model)[2] == (
            "complex_activation"@,
            JsonView::Text(model->complex_activation@),
        ),
        model is Complex && model->Complex_norm is Absent ==> model_settings(model)[4] == (
            "norm"@,
            JsonView::Text("none"@),
        ),
        model is Complex && model->Complex_norm is LayerNorm ==> model_settings(model)[4] == (
            "norm"@,
            JsonView::Text("layernorm"@),
        ),
{
}

} // verus!

//! How a training run is set up and what it reports.

use super::config::{described, TrainConfig, TrainMetricsSummary};
use super::data_prep::{bad_batch_size, batch_size_written, parse_batch_size};
use super::evaluation::PredictionEvaluation;
use super::losses::{physics_weight, DEFAULT_PHYSICS_LAMBDA_BITS};
use crate::base::error::CoreError;
use crate::data::loader::BatchSize;
use crate::scalar::Scalar;
use crate::text::{
    concat2, concat3, copy_of, decimal, decimal_digits, lowered, same_text, share, share_text,
    to_ascii_lowercase,
};
use vstd::prelude::*;
use vstd::string::StringExecFns;

verus! {

/// The pattern of 0.99, the decay of RMSprop where none is given.
pub const DEFAULT_ALPHA_BITS: u64 = 0x3fef_ae14_7ae1_47ae;

/// The optimizer of a run. One without settings of its own is known by its name.
#[derive(Debug)]
pub enum OptimizerPlan {
    Sgd { lr: Scalar, weight_decay: Scalar, momentum: Scalar, nesterov: bool },
    RmsProp { lr: Scalar, weight_decay: Scalar, momentum: Scalar, alpha: Scalar },
    Named { name: String, lr: Scalar, weight_decay: Scalar },
}

/// The value, or zero.
pub open spec fn or_zero(value: Option<Scalar>) -> Scalar {
    match value {
        Some(value) => value,
        None => Scalar { bits: 0 },
    }
}

impl OptimizerPlan {
    /// The optimizer that a run asks for. The name of SGD or RMSprop, in any case,
    /// together with a setting of its own gives that optimizer with its settings;
    /// every other is taken by name with its standard settings.
    pub open spec fn is_plan_of(&self, config: TrainConfig) -> bool {
        let name = lowered(config.optimizer@);
        let sgd = name == "sgd"@ && (config.sgd_momentum is Some || config.sgd_nesterov is Some);
        let rmsprop = name == "rmsprop"@ && (config.rmsprop_momentum is Some
            || config.rmsprop_alpha is Some);
        match self {
            OptimizerPlan::Sgd { lr, weight_decay, momentum, nesterov } => {
                &&& sgd
                &&& *lr == config.lr
                &&& *weight_decay == config.weight_decay
                &&& *momentum == or_zero(config.sgd_momentum)
                &&& *nesterov == (config.sgd_nesterov == Some(true))
            },
            OptimizerPlan::RmsProp { lr, weight_decay, momentum, alpha } => {
                &&& rmsprop
                &&& !sgd
                &&& *lr == config.lr
                &&& *weight_decay == config.weight_decay
                &&& *momentum == or_zero(config.rmsprop_momentum)
                &&& *alpha == match config.rmsprop_alpha {
                    Some(value) => value,
                    None => Scalar { bits: DEFAULT_ALPHA_BITS },
                }
            },
            OptimizerPlan::Named { name, lr, weight_decay } => {
                &&& !sgd
                &&& !rmsprop
                &&& name@ == config.optimizer@
                &&& *lr == config.lr
                &&& *weight_decay == config.weight_decay
            },
        }
    }

    /// The learning rate, whichever optimizer it is.
    pub open spec fn learning_rate(self) -> Scalar {
        match self {
            OptimizerPlan::Sgd { lr, .. } => lr,
            OptimizerPlan::RmsProp { lr, .. } => lr,
            OptimizerPlan::Named { lr, .. } => lr,
        }
    }

    /// The weight decay, whichever optimizer it is.
    pub open spec fn decay(self) -> Scalar {
        match self {
            OptimizerPlan::Sgd { weight_decay, .. } => weight_decay,
            OptimizerPlan::RmsProp { weight_decay, .. } => weight_decay,
            OptimizerPlan::Named { weight_decay, .. } => weight_decay,
        }
    }
}

/// Whichever optimizer a run asks for, it learns at the rate of the run and decays
/// weights as the run does. One that is taken by name has the name that was asked for;
/// SGD and RMSprop with settings of their own were asked for, and have these settings.
pub proof fn optimizers_take_the_settings_of_the_run(config: TrainConfig, plan: OptimizerPlan)
    requires
        plan.is_plan_of(config),
    ensures
        plan.learning_rate() == config.lr,
        plan.decay() == config.weight_decay,
        match plan {
            OptimizerPlan::Sgd { lr, weight_decay, momentum, nesterov } => {
                &&& lr == config.lr
                &&& weight_decay == config.weight_decay
                &&& lowered(config.optimizer@) == "sgd"@
                &&& config.sgd_momentum matches Some(given) ==> momentum == given
                &&& config.sgd_momentum is None ==> momentum.bits == 0
                &&& config.sgd_nesterov matches Some(given) ==> nesterov == given
                &&& config.sgd_nesterov is None ==> !nesterov
            },
            OptimizerPlan::RmsProp { lr, weight_decay, momentum, alpha } => {
                &&& lr == config.lr
                &&& weight_decay == config.weight_decay
                &&& lowered(config.optimizer@) == "rmsprop"@
                &&& config.rmsprop_momentum matches Some(given) ==> momentum == given
                &&& config.rmsprop_momentum is None ==> momentum.bits == 0
                &&& config.rmsprop_alpha matches Some(given) ==> alpha == given
                &&& config.rmsprop_alpha is None ==> alpha.bits == 0x3fef_ae14_7ae1_47ae
            },
            OptimizerPlan::Named { name, lr, weight_decay } => {
                &&& lr == config.lr
                &&& weight_decay == config.weight_decay
                &&& name@ == config.optimizer@
            },
        },
        lowered(config.optimizer@) == "sgd"@ && config.sgd_momentum is Some ==> plan is Sgd,
        lowered(config.optimizer@) == "sgd"@ && config.sgd_nesterov is Some ==> plan is Sgd,
        lowered(config.optimizer@) == "rmsprop"@ && config.rmsprop_momentum is Some ==> plan
            is RmsProp,
        lowered(config.optimizer@) == "rmsprop"@ && config.rmsprop_alpha is Some ==> plan
            is RmsProp,
        config.sgd_momentum is None && config.sgd_nesterov is None && config.rmsprop_momentum
            is None && config.rmsprop_alpha is None ==> plan is Named,
{
    reveal_strlit("sgd");
    reveal_strlit("rmsprop");
    assert("sgd"@.len() == 3 && "rmsprop"@.len() == 7);
}

/// The optimizer that a run asks for.
pub fn plan_optimizer(config: &TrainConfig) -> (result: OptimizerPlan)
    ensures
        result.is_plan_of(*config),
        result.learning_rate() == config.lr,
        result.decay() == config.weight_decay,
        match result {
            OptimizerPlan::Sgd { lr, weight_decay, .. } => lr == config.lr && weight_decay
                == config.weight_decay,
            OptimizerPlan::RmsProp { lr, weight_decay, .. } => lr == config.lr && weight_decay
                == config.weight_decay,
            OptimizerPlan::Named { name, lr, weight_decay } => lr == config.lr && weight_decay
                == config.weight_decay && name@ == config.optimizer@,
        },
{
    let name = to_ascii_lowercase(config.optimizer.as_str());
    if same_text(name.as_str(), "sgd") && (config.sgd_momentum.is_some()
        || config.sgd_nesterov.is_some()) {
        OptimizerPlan::Sgd {
            lr: config.lr,
            weight_decay: config.weight_decay,
            momentum: match config.sgd_momentum {
                Some(value) => value,
                None => Scalar::zero(),
            },
            nesterov: match config.sgd_nesterov {
                Some(flag) => flag,
                None => false,
            },
        }
    } else if same_text(name.as_str(), "rmsprop") && (config.rmsprop_momentum.is_some()
        || config.rmsprop_alpha.is_some()) {
        OptimizerPlan::RmsProp {
            lr: config.lr,
            weight_decay: config.weight_decay,
            momentum: match config.rmsprop_momentum {
                Some(value) => value,
                None => Scalar::zero(),
            },
            alpha: match config.rmsprop_alpha {
                Some(value) => value,
                None => Scalar::from_bits(DEFAULT_ALPHA_BITS),
            },
        }
    } else {
        OptimizerPlan::Named {
            name: copy_of(config.optimizer.as_str()),
            lr: config.lr,
            weight_decay: config.weight_decay,
        }
    }
}

/// Noise is on only with a deviation above zero.
pub open spec fn effective_noise(std: Option<Scalar>) -> Option<Scalar> {
    match std {
        Some(value) => if (Scalar { bits: 0 }).lt(value) {
            Some(value)
        } else {
            None
        },
        None => None,
    }
}

/// The input noise of a run.
pub fn input_noise(std: Option<Scalar>) -> (result: Option<Scalar>)
    ensures
        result == effective_noise(std),
{
    match std {
        Some(value) => if Scalar::zero().less_than(value) {
            Some(value)
        } else {
            None
        },
        None => None,
    }
}

/// The seed of the batch order: the one that was given, else the run's own.
pub open spec fn batch_order_seed(given: Option<u64>, seed: u64) -> u64 {
    match given {
        Some(shuffle_seed) => shuffle_seed,
        None => seed,
    }
}

/// A training run as it is carried out.
#[derive(Debug)]
pub struct TrainingPlan {
    pub optimizer: OptimizerPlan,
    pub max_epochs: usize,
    pub patience: usize,
    pub warmup_epochs: usize,
    pub max_grad_norm: Option<Scalar>,
    pub input_noise_std: Option<Scalar>,
    /// The batches of the training split, which is shuffled; the validation split
    /// is one batch in its own order.
    pub batch_size: BatchSize,
    pub shuffle_seed: u64,
    pub physics_lambda: Scalar,
}

/// The message for a scheduler that is not known.
pub open spec fn unknown_scheduler(name: Seq<char>) -> Seq<char> {
    "unknown scheduler '"@ + name + "', expected: none, cosine, plateau"@
}

/// Why a run cannot be set up, if it cannot: its scheduler is unknown, else its
/// batch size is none.
pub open spec fn setup_fault(config: TrainConfig, scheduler_known: bool) -> Option<Seq<char>> {
    if !scheduler_known {
        Some(unknown_scheduler(config.scheduler@))
    } else if batch_size_written(config.batch_size@) is None {
        Some(bad_batch_size(config.batch_size@))
    } else {
        None
    }
}

/// Sets up a run. `scheduler_known` tells whether the scheduler's name is the alias
/// of one.
pub fn plan_training(config: &TrainConfig, scheduler_known: bool) -> (result: Result<
    TrainingPlan,
    CoreError,
>)
    ensures
        result is Ok <==> setup_fault(*config, scheduler_known) is None,
        result matches Err(e) ==> e.says(setup_fault(*config, scheduler_known)->0),
        result matches Ok(plan) ==> {
            &&& plan.optimizer.is_plan_of(*config)
            &&& plan.optimizer.learning_rate() == config.lr
            &&& plan.optimizer.decay() == config.weight_decay
            &&& match plan.optimizer {
                OptimizerPlan::Sgd { lr, weight_decay, .. } => lr == config.lr && weight_decay
                    == config.weight_decay,
                OptimizerPlan::RmsProp { lr, weight_decay, .. } => lr == config.lr && weight_decay
                    == config.weight_decay,
                OptimizerPlan::Named { name, lr, weight_decay } => lr == config.lr && weight_decay
                    == config.weight_decay && name@ == config.optimizer@,
            }
            &&& config.input_noise_std is Some && (Scalar { bits: 0 }).lt(config.input_noise_std->0)
                ==> plan.input_noise_std == config.input_noise_std
            &&& plan.input_noise_std matches Some(std) ==> (Scalar { bits: 0 }).lt(std)
                && config.input_noise_std == Some(std)
            &&& config.shuffle_seed matches Some(seed) ==> plan.shuffle_seed == seed
            &&& config.shuffle_seed is None ==> plan.shuffle_seed == config.seed
            &&& plan.max_epochs == config.max_epochs
            &&& plan.patience == config.patience
            &&& plan.warmup_epochs == config.warmup_epochs
            &&& plan.max_grad_norm == config.grad_clip_norm
            &&& plan.input_noise_std == effective_noise(config.input_noise_std)
            &&& batch_size_written(config.batch_size@) == Some(plan.batch_size)
            &&& plan.shuffle_seed == batch_order_seed(config.shuffle_seed, config.seed)
            &&& plan.physics_lambda == match config.physics_lambda {
                Some(weight) => weight,
                None => Scalar { bits: DEFAULT_PHYSICS_LAMBDA_BITS },
            }
        },
{
    let optimizer = plan_optimizer(config);
    if !scheduler_known {
        return Err(
            CoreError::Msg(
                concat3(
                    "unknown scheduler '",
                    config.scheduler.as_str(),
                    "', expected: none, cosine, plateau",
                ),
            ),
        );
    }
    let batch_size = match parse_batch_size(config.batch_size.as_str()) {
        Ok(size) => size,
        Err(e) => return Err(e),
    };
    let shuffle_seed: u64 = match config.shuffle_seed {
        Some(seed) => seed,
        None => config.seed,
    };
    Ok(
        TrainingPlan {
            optimizer,
            max_epochs: config.max_epochs,
            patience: config.patience,
            warmup_epochs: config.warmup_epochs,
            max_grad_norm: config.grad_clip_norm,
            input_noise_std: input_noise(config.input_noise_std),
            batch_size,
            shuffle_seed,
            physics_lambda: physics_weight(config.physics_lambda),
        },
    )
}

/// A run without a shuffle seed visits its batches as one whose shuffle seed is its
/// own seed, and a deviation that is not above zero is the same as no noise.
pub proof fn standing_settings_are_neutral(seed: u64, std: Scalar)
    requires
        !(Scalar { bits: 0 }).lt(std),
    ensures
        batch_order_seed(None, seed) == batch_order_seed(Some(seed), seed),
        effective_noise(Some(std)) == effective_noise(None),
{
}

/// Inputs are disturbed by noise of the deviation that was asked for where that is above
/// zero, and not at all else. Batches are shuffled by the seed that was given for it,
/// and by the run's own only where none was.
pub proof fn noise_and_order_are_as_asked(std: Scalar, given: u64, seed: u64)
    ensures
        (Scalar { bits: 0 }).lt(std) ==> effective_noise(Some(std)) == Some(std),
        !(Scalar { bits: 0 }).lt(std) ==> effective_noise(Some(std)) is None,
        effective_noise(None) is None,
        batch_order_seed(Some(given), seed) == given,
        batch_order_seed(None, seed) == seed,
{
}

/// A run whose scheduler is unknown is refused for that, one whose batch size cannot be
/// read for that, and no other run is refused; the message names what was asked for.
pub proof fn only_bad_settings_are_refused(config: TrainConfig, scheduler_known: bool)
    ensures
        !scheduler_known ==> setup_fault(config, scheduler_known) == Some(
            "unknown scheduler '"@ + config.scheduler@ + "', expected: none, cosine, plateau"@,
        ),
        scheduler_known && batch_size_written(config.batch_size@) is Some ==> setup_fault(
            config,
            scheduler_known,
        ) is None,
        scheduler_known && batch_size_written(config.batch_size@) is None ==> setup_fault(
            config,
            scheduler_known,
        ) is Some,
{
}

/// A line of a table: a label and a value.
#[derive(Debug)]
pub struct MetricRow {
    pub label: String,
    pub value: String,
}

impl View for MetricRow {
    type V = (Seq<char>, Seq<char>);

    open spec fn view(&self) -> (Seq<char>, Seq<char>) {
        (self.label@, self.value@)
    }
}

/// The views of a table.
pub open spec fn row_views(rows: Seq<MetricRow>) -> Seq<(Seq<char>, Seq<char>)> {
    rows.map_values(|row: MetricRow| row@)
}

fn row(label: &str, value: String) -> (result: MetricRow)
    ensures
        result@ == (label@, value@),
{
    MetricRow { label: copy_of(label), value }
}

/// Who speaks in the log of a run.
pub fn log_context(config: &TrainConfig) -> (result: String)
    ensures
        result@ == "train:"@ + described(config.model.family(), config.model.width())
            + "@seed-"@ + decimal_digits(config.seed as nat),
{
    let arch = config.model.arch_description();
    let seed = decimal(config.seed);
    let mut text = concat3("train:", arch.as_str(), "@seed-");
    text.append(seed.as_str());
    text
}

/// The line on the sizes of the splits.
pub fn splits_line(config: &TrainConfig) -> (result: String)
    ensures
        result@ == "  Train: "@ + decimal_digits(config.train_samples@.len()) + " samples, Val: "@
            + decimal_digits(config.val_samples@.len()) + " samples, Test: "@ + decimal_digits(
            config.test_samples@.len(),
        ) + " samples"@,
{
    let train = decimal(config.train_samples.len() as u64);
    let val = decimal(config.val_samples.len() as u64);
    let test = decimal(config.test_samples.len() as u64);
    let mut text = concat3("  Train: ", train.as_str(), " samples, Val: ");
    text.append(val.as_str());
    text.append(" samples, Test: ");
    text.append(test.as_str());
    text.append(" samples");
    text
}

/// The table of a run's settings. `lr` and `weight_decay` are the two as text.
pub open spec fn configuration_table(
    config: TrainConfig,
    parameters: usize,
    lr: Seq<char>,
    weight_decay: Seq<char>,
) -> Seq<(Seq<char>, Seq<char>)> {
    seq![
        ("Model"@, described(config.model.family(), config.model.width())),
        ("Parameters"@, decimal_digits(parameters as nat)),
        (
            "Optimizer"@,
            config.optimizer@ + " (lr="@ + lr + ", wd="@ + weight_decay + ")"@,
        ),
        ("Scheduler"@, config.scheduler@),
        (
            "Epochs"@,
            decimal_digits(config.max_epochs as nat) + " (patience="@ + decimal_digits(
                config.patience as nat,
            ) + ")"@,
        ),
        ("Batch size"@, config.batch_size@),
        ("Loss"@, config.loss@),
    ]
}

/// The table of a run's settings.
pub fn configuration_rows(config: &TrainConfig, parameters: usize, lr: &str, weight_decay: &str) -> (result:
    Vec<MetricRow>)
    ensures
        row_views(result@) == configuration_table(*config, parameters, lr@, weight_decay@),
        result@.len() == 7,
        result@[0].label@ == "Model"@ && result@[0].value@ == described(
            config.model.family(),
            config.model.width(),
        ),
        result@[1].label@ == "Parameters"@ && result@[1].value@ == decimal_digits(
            parameters as nat,
        ),
        result@[2].label@ == "Optimizer"@ && result@[2].value@ == config.optimizer@ + " (lr="@ + lr@
            + ", wd="@ + weight_decay@ + ")"@,
        result@[3].label@ == "Scheduler"@ && result@[3].value@ == config.scheduler@,
        result@[4].label@ == "Epochs"@ && result@[4].value@ == decimal_digits(
            config.max_epochs as nat,
        ) + " (patience="@ + decimal_digits(config.patience as nat) + ")"@,
        result@[5].label@ == "Batch size"@ && result@[5].value@ == config.batch_size@,
        result@[6].label@ == "Loss"@ && result@[6].value@ == config.loss@,
{
    let mut rows: Vec<MetricRow> = Vec::new();
    rows.push(row("Model", config.model.arch_description()));
    rows.push(row("Parameters", decimal(parameters as u64)));
    let mut optimizer = concat3(config.optimizer.as_str(), " (lr=", lr);
    optimizer.append(", wd=");
    optimizer.append(weight_decay);
    optimizer.append(")");
    rows.push(row("Optimizer", optimizer));
    rows.push(row("Scheduler", copy_of(config.scheduler.as_str())));
    let epochs = decimal(config.max_epochs as u64);
    let patience = decimal(config.patience as u64);
    let mut span = concat3(epochs.as_str(), " (patience=", patience.as_str());
    span.append(")");
    rows.push(row("Epochs", span));
    rows.push(row("Batch size", copy_of(config.batch_size.as_str())));
    rows.push(row("Loss", copy_of(config.loss.as_str())));
    proof {
        assert(row_views(rows@) =~= configuration_table(*config, parameters, lr@, weight_decay@));
        assert forall|i: int| 0 <= i < rows@.len() implies (#[trigger] rows@[i])@
            == row_views(rows@)[i] by {
        }
    }
    rows
}

/// How a training loop ended.
#[derive(Clone, Copy, Debug, PartialEq, Eq, Structural)]
pub struct TrainingOutcome {
    pub best_epoch: usize,
    pub final_epoch: usize,
    pub stopped_early: bool,
    pub training_time_secs: Scalar,
}

/// A truth value in words.
pub open spec fn flag_text(flag: bool) -> Seq<char> {
    if flag {
        "true"@
    } else {
        "false"@
    }
}

/// The line on how training ended.
pub fn completion_line(outcome: &TrainingOutcome) -> (result: String)
    ensures
        result@ == "\n  Training complete: best epoch "@ + decimal_digits(
            outcome.best_epoch as nat,
        ) + "/"@ + decimal_digits(outcome.final_epoch as nat) + ", stopped_early="@ + flag_text(
            outcome.stopped_early,
        ),
{
    let best = decimal(outcome.best_epoch as u64);
    let last = decimal(outcome.final_epoch as u64);
    let mut text = concat3("\n  Training complete: best epoch ", best.as_str(), "/");
    text.append(last.as_str());
    text.append(", stopped_early=");
    text.append(
        if outcome.stopped_early {
            "true"
        } else {
            "false"
        },
    );
    text
}

/// Numbers of an evaluation that are written with a fixed number of digits.
#[derive(Debug)]
pub struct MetricTexts {
    pub ok_at_1_percent: String,
    pub ok_at_10_percent: String,
    pub mean_error: String,
    pub max_error: String,
    pub r2_real: String,
    pub r2_imag: String,
}

/// The table of a run's test metrics.
pub open spec fn test_table(evaluation: PredictionEvaluation, texts: MetricTexts) -> Seq<
    (Seq<char>, Seq<char>),
> {
    let n = evaluation.rel_error.n_samples;
    seq![
        ("OK@1%"@, share(texts.ok_at_1_percent@, evaluation.ok_at_1.ok_count, n)),
        ("OK@10%"@, share(texts.ok_at_10_percent@, evaluation.ok_at_10.ok_count, n)),
        ("Mean error"@, texts.mean_error@ + "%"@),
        ("Max error"@, texts.max_error@ + "%"@),
        ("R²(ε')"@, texts.r2_real@),
        ("R²(ε'')"@, texts.r2_imag@),
    ]
}

/// The table of a run's test metrics.
pub fn test_rows(evaluation: &PredictionEvaluation, texts: &MetricTexts) -> (result: Vec<
    MetricRow,
>)
    ensures
        row_views(result@) == test_table(*evaluation, *texts),
        result@.len() == 6,
        result@[0].label@ == "OK@1%"@ && result@[0].value@ == share(
            texts.ok_at_1_percent@,
            evaluation.ok_at_1.ok_count,
            evaluation.rel_error.n_samples,
        ),
        result@[1].label@ == "OK@10%"@ && result@[1].value@ == share(
            texts.ok_at_10_percent@,
            evaluation.ok_at_10.ok_count,
            evaluation.rel_error.n_samples,
        ),
        result@[2].label@ == "Mean error"@ && result@[2].value@ == texts.mean_error@ + "%"@,
        result@[3].label@ == "Max error"@ && result@[3].value@ == texts.max_error@ + "%"@,
        result@[4].label@ == "R²(ε')"@ && result@[4].value@ == texts.r2_real@,
        result@[5].label@ == "R²(ε'')"@ && result@[5].value@ == texts.r2_imag@,
{
    let n: usize = evaluation.rel_error.n_samples;
    let mut rows: Vec<MetricRow> = Vec::new();
    rows.push(
        row("OK@1%", share_text(texts.ok_at_1_percent.as_str(), evaluation.ok_at_1.ok_count, n)),
    );
    rows.push(
        row(
            "OK@10%",
            share_text(texts.ok_at_10_percent.as_str(), evaluation.ok_at_10.ok_count, n),
        ),
    );
    rows.push(row("Mean error", concat2(texts.mean_error.as_str(), "%")));
    rows.push(row("Max error", concat2(texts.max_error.as_str(), "%")));
    rows.push(row("R²(ε')", copy_of(texts.r2_real.as_str())));
    rows.push(row("R²(ε'')", copy_of(texts.r2_imag.as_str())));
    proof {
        assert(row_views(rows@) =~= test_table(*evaluation, *texts));
        assert forall|i: int| 0 <= i < rows@.len() implies (#[trigger] rows@[i])@
            == row_views(rows@)[i] by {
        }
    }
    rows
}

/// Numbers of an evaluation that come out of arithmetic on its errors.
#[derive(Clone, Copy, Debug, PartialEq, Eq, Structural)]
pub struct ErrorAverages {
    pub ok_at_1pct: Scalar,
    pub ok_at_10pct: Scalar,
    pub mean_error: Scalar,
    pub median_error: Scalar,
}

/// What a training run reports.
pub fn train_metrics(
    evaluation: &PredictionEvaluation,
    averages: &ErrorAverages,
    outcome: &TrainingOutcome,
) -> (result: TrainMetricsSummary)
    ensures
        result.ok_at_1pct == averages.ok_at_1pct,
        result.ok_at_10pct == averages.ok_at_10pct,
        result.mean_error == averages.mean_error,
        result.max_error == evaluation.rel_error.max_error,
        result.min_error == evaluation.rel_error.min_error,
        result.median_error == averages.median_error,
        result.r2_real == evaluation.r2_scores.r2_real,
        result.r2_imag == evaluation.r2_scores.r2_imag,
        result.best_epoch == outcome.best_epoch,
        result.final_epoch == outcome.final_epoch,
        result.stopped_early == outcome.stopped_early,
        result.training_time_secs == outcome.training_time_secs,
{
    TrainMetricsSummary {
        ok_at_1pct: averages.ok_at_1pct,
        ok_at_10pct: averages.ok_at_10pct,
        mean_error: averages.mean_error,
        max_error: evaluation.rel_error.max_error,
        min_error: evaluation.rel_error.min_error,
        median_error: averages.median_error,
        r2_real: evaluation.r2_scores.r2_real,
        r2_imag: evaluation.r2_scores.r2_imag,
        best_epoch: outcome.best_epoch,
        final_epoch: outcome.final_epoch,
        stopped_early: outcome.stopped_early,
        training_time_secs: outcome.training_time_secs,
    }
}

} // verus!

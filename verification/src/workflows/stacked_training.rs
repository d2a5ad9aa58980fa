//! The stages of a stacked run: an overlay for training, an ensemble of models,
//! and the metrics of their median.

use super::config::{StackedTrainConfig, TrainMetricsSummary};
use crate::data::generation::{
    standard_config, DataGenerationConfig, GeneratedDataset, PermittivitySample,
};
use crate::text::{concat3, decimal, decimal_digits};
use vstd::prelude::*;
use vstd::string::StringExecFns;

verus! {

/// A callback that no one listens to: the type of the observer of a run that is
/// not observed.
#[derive(Clone, Copy, Debug)]
pub struct NoopCallback;

/// A step of a stacked run.
#[derive(Debug)]
pub enum StackStep {
    /// Tell the observer.
    Status(String),
    /// Make the overlay and add it to the training samples.
    Overlay { density: usize, seed: u64 },
    /// Train a model. Without a shuffle seed the seed takes its place.
    Train { member: usize, members: usize, seed: u64, shuffle_seed: Option<u64> },
    /// Compute the metrics of the stacked predictions.
    Metrics { steps: usize },
}

/// A step, with its text as a sequence of characters.
pub enum StepView {
    Status(Seq<char>),
    Overlay { density: usize, seed: u64 },
    Train { member: usize, members: usize, seed: u64, shuffle_seed: Option<u64> },
    Metrics { steps: usize },
}

impl View for StackStep {
    type V = StepView;

    open spec fn view(&self) -> StepView {
        match self {
            StackStep::Status(text) => StepView::Status(text@),
            StackStep::Overlay { density, seed } => StepView::Overlay {
                density: *density,
                seed: *seed,
            },
            StackStep::Train { member, members, seed, shuffle_seed } => StepView::Train {
                member: *member,
                members: *members,
                seed: *seed,
                shuffle_seed: *shuffle_seed,
            },
            StackStep::Metrics { steps } => StepView::Metrics { steps: *steps },
        }
    }
}

/// The views of a list of steps.
pub open spec fn step_views(steps: Seq<StackStep>) -> Seq<StepView> {
    steps.map_values(|step: StackStep| step@)
}

/// How many models a stacked run trains: at least one.
pub open spec fn member_count(config: StackedTrainConfig) -> usize {
    if config.ensemble_size == 0 {
        1
    } else {
        config.ensemble_size
    }
}

/// The seed of a member: the run's seed and the member's index added up, wrapping
/// around.
pub open spec fn member_seed(seed: u64, index: int) -> u64 {
    ((seed + index) % 0x1_0000_0000_0000_0000) as u64
}

/// The seed of a member's batch order: the one that was given, else its own.
pub open spec fn member_shuffle_seed(given: Option<u64>, seed: u64) -> Option<u64> {
    match given {
        Some(_) => given,
        None => Some(seed),
    }
}

/// The status while the overlay is made.
pub open spec fn overlay_status(density: usize) -> Seq<char> {
    "Synthesising "@ + decimal_digits(density as nat) + "×"@ + decimal_digits(density as nat)
        + " train overlay (stack stage 1/4)…"@
}

/// The status while a member is trained.
pub open spec fn member_status(member: int, members: usize) -> Seq<char> {
    "Training ensemble member "@ + decimal_digits(member as nat) + " of "@ + decimal_digits(
        members as nat,
    ) + " (stack stage 2)…"@
}

/// The status while the metrics are computed.
pub open spec fn metrics_status(steps: usize) -> Seq<char> {
    if steps > 0 {
        "Computing ensemble median + "@ + decimal_digits(steps as nat)
            + "-step NRW refinement (stack stage 3/4)…"@
    } else {
        "Computing ensemble median metrics (stack stage 3/4)…"@
    }
}

/// The training of the member at an index.
pub open spec fn member_training(config: StackedTrainConfig, index: int) -> StepView {
    let seed = member_seed(config.base.seed, index);
    StepView::Train {
        member: (index + 1) as usize,
        members: member_count(config),
        seed,
        shuffle_seed: member_shuffle_seed(config.base.shuffle_seed, seed),
    }
}

/// The steps of the first `count` members. Each is announced where there are
/// several.
pub open spec fn member_steps(config: StackedTrainConfig, count: nat) -> Seq<StepView>
    decreases count,
{
    if count == 0 {
        Seq::<StepView>::empty()
    } else {
        let index = count - 1;
        let training = member_training(config, index);
        member_steps(config, index as nat) + if member_count(config) > 1 {
            seq![StepView::Status(member_status(index + 1, member_count(config))), training]
        } else {
            seq![training]
        }
    }
}

/// The steps that make the overlay.
pub open spec fn overlay_steps(config: StackedTrainConfig) -> Seq<StepView> {
    if config.train_overlay_density > 0 {
        seq![
            StepView::Status(overlay_status(config.train_overlay_density)),
            StepView::Overlay {
                density: config.train_overlay_density,
                seed: config.base.seed,
            },
        ]
    } else {
        Seq::<StepView>::empty()
    }
}

/// The predictions are more than those of the single model that was trained.
pub open spec fn has_stacked_metrics(config: StackedTrainConfig) -> bool {
    !config.passes_through() && (member_count(config) > 1 || config.refine_steps > 0)
}

/// The steps after training.
pub open spec fn closing_steps(config: StackedTrainConfig) -> Seq<StepView> {
    if has_stacked_metrics(config) {
        seq![
            StepView::Status(metrics_status(config.refine_steps)),
            StepView::Metrics { steps: config.refine_steps },
            StepView::Status("Persisting weights + stacked metrics (stack stage 4/4)…"@),
        ]
    } else {
        Seq::<StepView>::empty()
    }
}

/// The steps of a stacked run. With every stage off it is a plain run.
pub open spec fn stack_steps(config: StackedTrainConfig) -> Seq<StepView> {
    if config.passes_through() {
        seq![
            StepView::Train {
                member: 1,
                members: 1,
                seed: config.base.seed,
                shuffle_seed: config.base.shuffle_seed,
            },
        ]
    } else {
        overlay_steps(config) + member_steps(config, member_count(config) as nat) + closing_steps(
            config,
        )
    }
}

/// The seeds of the members of an ensemble differ.
pub proof fn members_have_different_seeds(seed: u64, first: int, second: int)
    requires
        0 <= first < second <= u64::MAX,
    ensures
        member_seed(seed, first) != member_seed(seed, second),
{
    let m = 0x1_0000_0000_0000_0000int;
    assert((seed + first) % m != (seed + second) % m) by (nonlinear_arith)
        requires
            m == 0x1_0000_0000_0000_0000int,
            0 <= first < second < m,
            0 <= seed < m,
    ;
}

/// The first member has the seed of the run itself.
pub proof fn first_member_keeps_the_seed(seed: u64)
    ensures
        member_seed(seed, 0) == seed,
{
}

/// The trainings among some steps.
pub open spec fn trainings(steps: Seq<StepView>) -> Seq<StepView>
    decreases steps.len(),
{
    if steps.len() == 0 {
        Seq::<StepView>::empty()
    } else {
        let before = trainings(steps.drop_last());
        if steps.last() is Train {
            before.push(steps.last())
        } else {
            before
        }
    }
}

proof fn lemma_trainings_of_both(a: Seq<StepView>, b: Seq<StepView>)
    ensures
        trainings(a + b) == trainings(a) + trainings(b),
    decreases b.len(),
{
    if b.len() == 0 {
        assert(a + b =~= a);
        assert(trainings(a) + trainings(b) =~= trainings(a));
    } else {
        assert((a + b).drop_last() =~= a + b.drop_last());
        lemma_trainings_of_both(a, b.drop_last());
        assert(trainings(a + b) =~= trainings(a) + trainings(b));
    }
}

proof fn lemma_member_trainings(config: StackedTrainConfig, count: nat)
    ensures
        trainings(member_steps(config, count)) == Seq::new(
            count,
            |k: int| member_training(config, k),
        ),
    decreases count,
{
    if count > 0 {
        let index = count - 1;
        lemma_member_trainings(config, index as nat);
        let training = member_training(config, index);
        let added = if member_count(config) > 1 {
            seq![StepView::Status(member_status(index + 1, member_count(config))), training]
        } else {
            seq![training]
        };
        lemma_trainings_of_both(member_steps(config, index as nat), added);
        assert(trainings(added) =~= seq![training]) by {
            reveal_with_fuel(trainings, 3);
            assert(added.drop_last().drop_last() =~= Seq::<StepView>::empty() || added.len() == 1);
        }
        assert(Seq::new(count, |k: int| member_training(config, k)) =~= Seq::new(
            index as nat,
            |k: int| member_training(config, k),
        ).push(training));
    } else {
        assert(trainings(member_steps(config, 0)) =~= Seq::new(
            0,
            |k: int| member_training(config, k),
        ));
    }
}

/// A stacked run trains every member of its ensemble exactly once, in order. With
/// every stage off it trains one model, with the seeds of the run as they are.
pub proof fn every_member_is_trained_once(config: StackedTrainConfig)
    ensures
        !config.passes_through() ==> trainings(stack_steps(config)) == Seq::new(
            member_count(config) as nat,
            |k: int| member_training(config, k),
        ),
        config.passes_through() ==> trainings(stack_steps(config)) == seq![
            StepView::Train {
                member: 1,
                members: 1,
                seed: config.base.seed,
                shuffle_seed: config.base.shuffle_seed,
            },
        ] && stack_steps(config).len() == 1,
{
    reveal_with_fuel(trainings, 4);
    if !config.passes_through() {
        let head = overlay_steps(config);
        let middle = member_steps(config, member_count(config) as nat);
        let tail = closing_steps(config);
        lemma_trainings_of_both(head + middle, tail);
        lemma_trainings_of_both(head, middle);
        lemma_member_trainings(config, member_count(config) as nat);
        assert(trainings(head) =~= Seq::<StepView>::empty());
        assert(trainings(tail) =~= Seq::<StepView>::empty());
        assert(trainings(stack_steps(config)) =~= trainings(middle));
    }
}

fn status2(text: &str, n: usize, end: &str) -> (result: String)
    ensures
        result@ == text@ + decimal_digits(n as nat) + end@,
{
    let number = decimal(n as u64);
    concat3(text, number.as_str(), end)
}

fn seed_of_member(seed: u64, index: usize) -> (result: u64)
    ensures
        result == member_seed(seed, index as int),
{
    seed.wrapping_add(index as u64)
}

/// The steps of a stacked run, in order.
pub fn plan_stacked_training(config: &StackedTrainConfig) -> (result: Vec<StackStep>)
    ensures
        step_views(result@) == stack_steps(*config),
{
    let mut steps: Vec<StackStep> = Vec::new();
    if config.is_passthrough() {
        steps.push(
            StackStep::Train {
                member: 1,
                members: 1,
                seed: config.base.seed,
                shuffle_seed: config.base.shuffle_seed,
            },
        );
        proof {
            assert(step_views(steps@) =~= stack_steps(*config));
        }
        return steps;
    }
    if config.train_overlay_density > 0 {
        let side = decimal(config.train_overlay_density as u64);
        let mut text = concat3("Synthesising ", side.as_str(), "×");
        text.append(side.as_str());
        text.append(" train overlay (stack stage 1/4)…");
        steps.push(StackStep::Status(text));
        steps.push(
            StackStep::Overlay {
                density: config.train_overlay_density,
                seed: config.base.seed,
            },
        );
    }
    proof {
        assert(step_views(steps@) =~= overlay_steps(*config));
    }
    let members: usize = if config.ensemble_size == 0 {
        1
    } else {
        config.ensemble_size
    };
    let mut index: usize = 0;
    while index < members
        invariant
            index <= members,
            members == member_count(*config),
            step_views(steps@) == overlay_steps(*config) + member_steps(*config, index as nat),
        decreases members - index,
    {
        let ghost before = step_views(steps@);
        let member: usize = index + 1;
        if members > 1 {
            let number = decimal(member as u64);
            let total = decimal(members as u64);
            let mut text = concat3("Training ensemble member ", number.as_str(), " of ");
            text.append(total.as_str());
            text.append(" (stack stage 2)…");
            steps.push(StackStep::Status(text));
        }
        let seed: u64 = seed_of_member(config.base.seed, index);
        let shuffle_seed: Option<u64> = match config.base.shuffle_seed {
            Some(given) => Some(given),
            None => Some(seed),
        };
        steps.push(StackStep::Train { member, members, seed, shuffle_seed });
        proof {
            let training = member_training(*config, index as int);
            let added = if members > 1 {
                seq![StepView::Status(member_status(index + 1, members)), training]
            } else {
                seq![training]
            };
            assert(step_views(steps@) =~= before + added);
            assert(member_steps(*config, (index + 1) as nat) == member_steps(*config, index as nat)
                + added);
            assert(step_views(steps@) =~= overlay_steps(*config) + member_steps(
                *config,
                (index + 1) as nat,
            ));
        }
        index += 1;
    }
    if members > 1 || config.refine_steps > 0 {
        if config.refine_steps > 0 {
            steps.push(
                StackStep::Status(
                    status2(
                        "Computing ensemble median + ",
                        config.refine_steps,
                        "-step NRW refinement (stack stage 3/4)…",
                    ),
                ),
            );
        } else {
            steps.push(
                StackStep::Status(
                    crate::text::copy_of("Computing ensemble median metrics (stack stage 3/4)…"),
                ),
            );
        }
        steps.push(StackStep::Metrics { steps: config.refine_steps });
        steps.push(
            StackStep::Status(
                crate::text::copy_of("Persisting weights + stacked metrics (stack stage 4/4)…"),
            ),
        );
    }
    proof {
        assert(step_views(steps@) =~= stack_steps(*config));
    }
    steps
}

/// What a training run leaves behind.
#[derive(Debug)]
pub struct TrainRunResult {
    pub arch_description: String,
    pub parameter_count: usize,
    pub metrics: TrainMetricsSummary,
    /// Where the weights were written, if they were.
    pub checkpoint_path: Option<String>,
    /// The weights as bytes.
    pub weights: Vec<u8>,
}

/// What a stacked run leaves behind.
#[derive(Debug)]
pub struct StackedTrainResult {
    /// The first, or only, model.
    pub primary: TrainRunResult,
    /// The weights of every model, where there are several.
    pub ensemble_weights: Option<Vec<Vec<u8>>>,
    /// The metrics of the stacked predictions, where they are more than those of
    /// the first model.
    pub stacked_metrics: Option<TrainMetricsSummary>,
}

/// Puts together what a stacked run leaves behind, from the result of the first
/// member, the weights of all, and the metrics of the stacked predictions.
pub fn stacked_result(
    config: &StackedTrainConfig,
    primary: TrainRunResult,
    weights: Vec<Vec<u8>>,
    metrics: TrainMetricsSummary,
) -> (result: StackedTrainResult)
    requires
        weights@.len() == member_count(*config),
        weights@[0]@ == primary.weights@,
    ensures
        result.primary == primary,
        result.ensemble_weights is Some <==> member_count(*config) > 1,
        result.ensemble_weights matches Some(all) ==> all == weights && all@.len()
            == member_count(*config) && all@[0]@ == result.primary.weights@,
        result.stacked_metrics is Some <==> has_stacked_metrics(*config),
        result.stacked_metrics matches Some(m) ==> m == metrics,
{
    let stacked = !config.is_passthrough() && (config.ensemble_size > 1 || config.refine_steps > 0);
    StackedTrainResult {
        primary,
        ensemble_weights: if config.ensemble_size > 1 {
            Some(weights)
        } else {
            None
        },
        stacked_metrics: if stacked {
            Some(metrics)
        } else {
            None
        },
    }
}

/// The settings of the overlay: a dense patch of `density` by `density` points for
/// training alone, beside a small grid that is thrown away.
pub open spec fn overlay_settings(density: usize, seed: u64) -> DataGenerationConfig {
    DataGenerationConfig {
        seed,
        n_eps_prime_train: 10,
        n_eps_double_prime_train: 10,
        dense_patch_n_train: (density, density),
        dense_patch_n_eval: (0, 0),
        ..standard_config()
    }
}

/// The settings that the overlay is generated with; `None` where there is none.
pub fn overlay_config(density: usize, seed: u64) -> (result: Option<DataGenerationConfig>)
    ensures
        result is Some <==> density > 0,
        result matches Some(config) ==> config == overlay_settings(density, seed),
{
    if density == 0 {
        return None;
    }
    let mut config = DataGenerationConfig::default();
    config.seed = seed;
    config.n_eps_prime_train = 10;
    config.n_eps_double_prime_train = 10;
    config.dense_patch_n_train = (density, density);
    config.dense_patch_n_eval = (0, 0);
    Some(config)
}

/// The samples of a dense patch.
pub open spec fn patch_samples(samples: Seq<PermittivitySample>) -> Seq<PermittivitySample> {
    samples.filter(|s: PermittivitySample| s.is_dense_patch)
}

/// The training samples with the dense patch of the overlay behind them.
pub fn augmented_training(train: &Vec<PermittivitySample>, overlay: &GeneratedDataset) -> (result:
    Vec<PermittivitySample>)
    ensures
        result@ == train@ + patch_samples(overlay.train@),
{
    let mut result: Vec<PermittivitySample> = Vec::new();
    let mut i: usize = 0;
    while i < train.len()
        invariant
            i <= train@.len(),
            result@ == train@.take(i as int),
        decreases train@.len() - i,
    {
        result.push(train[i]);
        proof {
            assert(train@.take(i + 1) == train@.take(i as int).push(train@[i as int]));
        }
        i += 1;
    }
    proof {
        assert(train@.take(train@.len() as int) == train@);
        reveal(Seq::filter);
        assert(overlay.train@.take(0) == Seq::<PermittivitySample>::empty());
        assert(result@ =~= train@ + patch_samples(overlay.train@.take(0)));
    }
    let mut k: usize = 0;
    while k < overlay.train.len()
        invariant
            k <= overlay.train@.len(),
            result@ == train@ + patch_samples(overlay.train@.take(k as int)),
        decreases overlay.train@.len() - k,
    {
        let sample = overlay.train[k];
        proof {
            lemma_patch_grows(overlay.train@, k as int);
        }
        if sample.is_dense_patch {
            result.push(sample);
        }
        k += 1;
        proof {
            assert(result@ =~= train@ + patch_samples(overlay.train@.take(k as int)));
        }
    }
    proof {
        assert(overlay.train@.take(overlay.train@.len() as int) == overlay.train@);
    }
    result
}

proof fn lemma_patch_grows(samples: Seq<PermittivitySample>, k: int)
    requires
        0 <= k < samples.len(),
    ensures
        patch_samples(samples.take(k + 1)) == if samples[k].is_dense_patch {
            patch_samples(samples.take(k)).push(samples[k])
        } else {
            patch_samples(samples.take(k))
        },
{
    reveal(Seq::filter);
    assert(samples.take(k + 1).drop_last() == samples.take(k));
    assert(samples.take(k + 1).last() == samples[k]);
}

/// The overlay adds samples to training and takes none away: those that were there
/// stay in front, and all that is added is marked as dense patch.
pub proof fn overlay_only_adds(
    train: Seq<PermittivitySample>,
    overlay: Seq<PermittivitySample>,
    i: int,
)
    requires
        0 <= i < (train + patch_samples(overlay)).len(),
    ensures
        i < train.len() ==> (train + patch_samples(overlay))[i] == train[i],
        i >= train.len() ==> (train + patch_samples(overlay))[i].is_dense_patch,
{
    if i >= train.len() {
        overlay.lemma_filter_pred(|s: PermittivitySample| s.is_dense_patch, i - train.len());
    }
}

/// Every member trains from its own seed, which counts up from that of the run, and knows
/// its place among the members. It shuffles by the seed that was given for the order of
/// batches, or by its own where none was.
pub proof fn members_train_from_seeds_in_turn(config: StackedTrainConfig, index: int)
    requires
        0 <= index < member_count(config),
    ensures
        config.ensemble_size > 0 ==> member_count(config) == config.ensemble_size,
        config.ensemble_size == 0 ==> member_count(config) == 1,
        member_training(config, index) matches StepView::Train {
            member,
            members,
            seed,
            shuffle_seed,
        } && {
            &&& member == index + 1
            &&& members == member_count(config)
            &&& config.base.seed + index <= u64::MAX ==> seed == config.base.seed + index
            &&& config.base.seed + index > u64::MAX ==> seed == config.base.seed + index
                - 0x1_0000_0000_0000_0000
            &&& config.base.shuffle_seed is Some ==> shuffle_seed == config.base.shuffle_seed
            &&& config.base.shuffle_seed is None ==> shuffle_seed == Some(seed)
        },
{
}

/// The overlay is synthesised before anything is trained, exactly where a density is set,
/// with that density and the seed of the run. The metrics of the stack are computed after
/// all training, exactly where there is more than one member or something to refine, with
/// the steps that are set.
pub proof fn stages_run_in_their_order(config: StackedTrainConfig)
    ensures
        ({
            let steps = stack_steps(config);
            let n = steps.len() as int;
            &&& config.train_overlay_density > 0 ==> n >= 2 && steps[0] is Status && steps[1]
                == (StepView::Overlay {
                density: config.train_overlay_density,
                seed: config.base.seed,
            })
            &&& forall|i: int|
                0 <= i < n && (#[trigger] steps[i]) is Overlay ==> i == 1
                    && config.train_overlay_density > 0
            &&& has_stacked_metrics(config) <==> config.ensemble_size > 1 || config.refine_steps
                > 0
            &&& has_stacked_metrics(config) ==> n >= 3 && steps[n - 2] == (StepView::Metrics {
                steps: config.refine_steps,
            })
            &&& forall|i: int|
                0 <= i < n && (#[trigger] steps[i]) is Metrics ==> i == n - 2
                    && has_stacked_metrics(config)
        }),
{
    let members = member_count(config) as nat;
    lemma_member_steps_only_train(config, members);
    let steps = stack_steps(config);
    if !config.passes_through() {
        let first = overlay_steps(config);
        let middle = member_steps(config, members);
        let last = closing_steps(config);
        assert(steps == first + middle + last);
        assert forall|i: int| 0 <= i < steps.len() && (#[trigger] steps[i]) is Overlay implies i
            == 1 && config.train_overlay_density > 0 by {
            if first.len() <= i < first.len() + middle.len() {
                assert(steps[i] == middle[i - first.len()]);
            }
        }
        assert forall|i: int| 0 <= i < steps.len() && (#[trigger] steps[i]) is Metrics implies i
            == steps.len() - 2 && has_stacked_metrics(config) by {
            if first.len() <= i < first.len() + middle.len() {
                assert(steps[i] == middle[i - first.len()]);
            }
        }
    }
}

proof fn lemma_member_steps_only_train(config: StackedTrainConfig, count: nat)
    ensures
        forall|i: int|
            0 <= i < member_steps(config, count).len() ==> (#[trigger] member_steps(
                config,
                count,
            )[i]) is Status || member_steps(config, count)[i] is Train,
    decreases count,
{
    if count > 0 {
        let fewer = (count - 1) as nat;
        lemma_member_steps_only_train(config, fewer);
        let all = member_steps(config, count);
        let before = member_steps(config, fewer);
        assert forall|i: int| 0 <= i < all.len() implies (#[trigger] all[i]) is Status || all[i]
            is Train by {
            if i < before.len() {
                assert(all[i] == before[i]);
            }
        }
    }
}

/// An overlay is a square patch of the density that was asked for in the patch window of
/// the standard dataset, real parts from 1 to 2.5 and loss factors from 0 to 1.75, under
/// the seed of the run, without patches for validation and test.
pub proof fn overlays_cover_the_patch_window(density: usize, seed: u64)
    ensures
        ({
            let config = overlay_settings(density, seed);
            &&& config.seed == seed
            &&& config.dense_patch_n_train == (density, density)
            &&& config.dense_patch_n_eval == (0usize, 0usize)
            &&& config.dense_patch_eps_prime_range.0.bits == 0x3ff0_0000_0000_0000
            &&& config.dense_patch_eps_prime_range.1.bits == 0x4004_0000_0000_0000
            &&& config.dense_patch_eps_double_prime_range.0.bits == 0
            &&& config.dense_patch_eps_double_prime_range.1.bits == 0x3ffc_0000_0000_0000
            &&& config.d == standard_config().d
            &&& config.a == standard_config().a
            &&& config.frequency == standard_config().frequency
        }),
{
}

/// Training goes on with all its samples and with every sample of the overlay's patch, in
/// order, and with no other sample of the overlay.
pub proof fn overlays_add_their_patch(
    train: Seq<PermittivitySample>,
    overlay: Seq<PermittivitySample>,
    s: PermittivitySample,
)
    ensures
        (train + patch_samples(overlay)).take(train.len() as int) == train,
        patch_samples(overlay).contains(s) <==> overlay.contains(s) && s.is_dense_patch,
        (forall|i: int| 0 <= i < overlay.len() ==> (#[trigger] overlay[i]).is_dense_patch)
            ==> patch_samples(overlay) == overlay,
        (forall|i: int| 0 <= i < overlay.len() ==> !(#[trigger] overlay[i]).is_dense_patch)
            ==> patch_samples(overlay).len() == 0,
{
    let pred = |s: PermittivitySample| s.is_dense_patch;
    let kept = overlay.filter(pred);
    assert((train + kept).take(train.len() as int) =~= train);
    if kept.contains(s) {
        let k = choose|k: int| 0 <= k < kept.len() && kept[k] == s;
        overlay.lemma_filter_pred(pred, k);
        overlay.lemma_filter_contains_rev(pred, s);
    }
    if overlay.contains(s) && s.is_dense_patch {
        let k = choose|k: int| 0 <= k < overlay.len() && overlay[k] == s;
        overlay.lemma_filter_contains(pred, k);
    }
    lemma_all_or_none(overlay);
}

proof fn lemma_all_or_none(samples: Seq<PermittivitySample>)
    ensures
        (forall|i: int| 0 <= i < samples.len() ==> (#[trigger] samples[i]).is_dense_patch)
            ==> patch_samples(samples) == samples,
        (forall|i: int| 0 <= i < samples.len() ==> !(#[trigger] samples[i]).is_dense_patch)
            ==> patch_samples(samples).len() == 0,
    decreases samples.len(),
{
    reveal(Seq::filter);
    if samples.len() > 0 {
        let head = samples.drop_last();
        lemma_all_or_none(head);
        let last = samples.len() - 1;
        assert(samples[last] == samples.last());
        assert(head.push(samples.last()) =~= samples);
        if forall|i: int| 0 <= i < samples.len() ==> (#[trigger] samples[i]).is_dense_patch {
            assert forall|i: int| 0 <= i < head.len() implies (
            #[trigger] head[i]).is_dense_patch by {
                assert(samples[i].is_dense_patch);
            }
        }
        if forall|i: int| 0 <= i < samples.len() ==> !(#[trigger] samples[i]).is_dense_patch {
            assert forall|i: int| 0 <= i < head.len() implies !(
            #[trigger] head[i]).is_dense_patch by {
                assert(!samples[i].is_dense_patch);
            }
        }
    } else {
        assert(patch_samples(samples) =~= samples);
    }
}

/// Members are trained one after the other. Where there are several, each is announced by
/// its number before its training; a single one is not.
pub proof fn members_are_announced_where_there_are_several(
    config: StackedTrainConfig,
    count: nat,
    i: int,
)
    requires
        0 <= i < count,
    ensures
        member_count(config) <= 1 ==> member_steps(config, count).len() == count && member_steps(
            config,
            count,
        )[i] == member_training(config, i),
        member_count(config) > 1 ==> {
            &&& member_steps(config, count).len() == 2 * count
            &&& member_steps(config, count)[2 * i] == StepView::Status(
                member_status(i + 1, member_count(config)),
            )
            &&& member_steps(config, count)[2 * i + 1] == member_training(config, i)
        },
    decreases count,
{
    let fewer = (count - 1) as nat;
    if fewer > 0 {
        members_are_announced_where_there_are_several(config, fewer, 0);
    } else {
        assert(member_steps(config, fewer).len() == 0);
    }
    if i < fewer {
        members_are_announced_where_there_are_several(config, fewer, i);
    }
}

/// There is always a member to train: as many as were set, and one where none was.
pub proof fn there_is_always_a_member(config: StackedTrainConfig)
    ensures
        member_count(config) >= 1,
        config.ensemble_size >= 1 ==> member_count(config) == config.ensemble_size,
        config.ensemble_size == 0 ==> member_count(config) == 1,
{
}

} // verus!

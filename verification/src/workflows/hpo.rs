//! Hyper-parameter studies: which studies are run, over which search space, and
//! how the importance of parameters is reported.

use crate::base::error::{msg_error, CoreError};
use crate::model::{model_type_named, unknown_model_type, ModelType};
use crate::scalar::{Scalar, ONE_BITS};
use crate::text::{
    concat2, concat3, copy_of, lowered, same_text, to_ascii_lowercase, trim, trimmed, views,
};
use vstd::prelude::*;

verus! {

/// The pattern of 1e-15, the upper end of a range that is turned off.
pub const OFF_BITS: u64 = 0x3cd2_03af_9ee7_5616;

/// With more trials than this, importance is estimated by rank correlation alone.
pub const FANOVA_TRIAL_CAP: usize = 2000;

/// A name as it is looked up: without white space at the ends, in lower case.
pub open spec fn lookup_form(s: Seq<char>) -> Seq<char> {
    lowered(trimmed(s))
}

/// The model types that a name asks for; `both` asks for either in turn.
pub open spec fn model_types_named(s: Seq<char>) -> Option<Seq<ModelType>> {
    let name = lookup_form(s);
    if name == "both"@ {
        Some(seq![ModelType::Real, ModelType::Complex])
    } else {
        match model_type_named(name) {
            Some(model_type) => Some(seq![model_type]),
            None => None,
        }
    }
}

/// The model types to run a study for.
pub fn parse_model_types(s: &str) -> (result: Result<Vec<ModelType>, CoreError>)
    ensures
        result is Ok <==> model_types_named(s@) is Some,
        result matches Ok(types) ==> model_types_named(s@) == Some(types@),
        result matches Err(e) ==> e.says(unknown_model_type(lookup_form(s@)) + ", or 'both'"@),
{
    let bare = trim(s);
    let name = to_ascii_lowercase(bare.as_str());
    let mut types: Vec<ModelType> = Vec::new();
    if same_text(name.as_str(), "both") {
        types.push(ModelType::Real);
        types.push(ModelType::Complex);
        proof {
            assert(types@ == seq![ModelType::Real, ModelType::Complex]);
        }
        return Ok(types);
    }
    match ModelType::from_name(name.as_str()) {
        Ok(model_type) => {
            types.push(model_type);
            proof {
                assert(types@ == seq![model_type]);
            }
            Ok(types)
        },
        Err(_) => {
            let head = concat3(
                "unknown model type '",
                name.as_str(),
                "', expected: real, complex",
            );
            Err(CoreError::Msg(concat2(head.as_str(), ", or 'both'")))
        },
    }
}

/// Refuses a study without samples in each split.
pub fn check_study_samples(train: usize, val: usize, test: usize) -> (result: Result<(), CoreError>)
    ensures
        result is Ok <==> train > 0 && val > 0 && test > 0,
        result matches Err(e) ==> e.says(
            if train == 0 || val == 0 {
                "HPO requires non-empty train/val samples"@
            } else {
                "HPO requires a non-empty test split (objectives are computed on it)"@
            },
        ),
{
    if train == 0 || val == 0 {
        return Err(msg_error("HPO requires non-empty train/val samples"));
    }
    if test == 0 {
        return Err(
            msg_error("HPO requires a non-empty test split (objectives are computed on it)"),
        );
    }
    Ok(())
}

/// One study of a run.
#[derive(Debug)]
pub struct StudyPlan {
    pub model_type: ModelType,
    pub name: String,
}

/// The name of a study; one of several carries its model type.
pub open spec fn study_name(base: Seq<char>, model_type: ModelType, studies: int) -> Seq<char> {
    if studies > 1 {
        base + "_"@ + model_type.label()
    } else {
        base
    }
}

/// The studies of a run, one per model type.
pub fn plan_studies(base: &str, types: &Vec<ModelType>) -> (result: Vec<StudyPlan>)
    ensures
        result@.len() == types@.len(),
        forall|i: int|
            0 <= i < result@.len() ==> (#[trigger] result@[i]).model_type == types@[i]
                && result@[i].name@ == study_name(base@, types@[i], types@.len() as int),
{
    let mut plans: Vec<StudyPlan> = Vec::new();
    let mut i: usize = 0;
    while i < types.len()
        invariant
            i <= types@.len(),
            plans@.len() == i,
            forall|k: int|
                0 <= k < i ==> (#[trigger] plans@[k]).model_type == types@[k] && plans@[k].name@
                    == study_name(base@, types@[k], types@.len() as int),
        decreases types@.len() - i,
    {
        let model_type = types[i];
        let name = if types.len() > 1 {
            concat3(base, "_", model_type.as_str())
        } else {
            copy_of(base)
        };
        plans.push(StudyPlan { model_type, name });
        i += 1;
    }
    plans
}

/// A search space as it is asked for. Fields that start with `complex_` apply to
/// complex models only.
#[derive(Debug, Default)]
pub struct SearchSpaceConfig {
    pub hidden_sizes: Option<Vec<i64>>,
    pub activations: Option<Vec<String>>,
    pub lr_min: Option<Scalar>,
    pub lr_max: Option<Scalar>,
    pub weight_decay_min: Option<Scalar>,
    pub weight_decay_max: Option<Scalar>,
    pub dropout_enabled: Option<bool>,
    pub dropout_min: Option<Scalar>,
    pub dropout_max: Option<Scalar>,
    pub norms: Option<Vec<String>>,
    pub noise_enabled: Option<bool>,
    pub optimizers: Option<Vec<String>>,
    pub batch_sizes: Option<Vec<String>>,
    pub losses: Option<Vec<String>>,
    pub schedulers: Option<Vec<String>>,
    pub grad_clips: Option<Vec<String>>,
    pub complex_activations: Option<Vec<String>>,
    pub complex_hidden_sizes: Option<Vec<i64>>,
    pub complex_lr_min: Option<Scalar>,
    pub complex_lr_max: Option<Scalar>,
    pub complex_weight_decay_min: Option<Scalar>,
    pub complex_weight_decay_max: Option<Scalar>,
    pub complex_optimizers: Option<Vec<String>>,
    pub complex_batch_sizes: Option<Vec<String>>,
    pub complex_losses: Option<Vec<String>>,
    pub complex_schedulers: Option<Vec<String>>,
    pub complex_dropout_enabled: Option<bool>,
    pub complex_dropout_min: Option<Scalar>,
    pub complex_dropout_max: Option<Scalar>,
    pub complex_grad_clips: Option<Vec<String>>,
    pub complex_noise_enabled: Option<bool>,
    pub pi_mape_beta_min: Option<Scalar>,
    pub pi_mape_beta_max: Option<Scalar>,
}

/// What a [`SearchSpaceConfig`] asks of one model type.
#[derive(Debug)]
pub struct EffectiveSearchSpace<'a> {
    pub hidden_sizes: Option<&'a Vec<i64>>,
    pub activations: Option<&'a Vec<String>>,
    pub lr_min: Option<Scalar>,
    pub lr_max: Option<Scalar>,
    pub weight_decay_min: Option<Scalar>,
    pub weight_decay_max: Option<Scalar>,
    pub dropout_enabled: Option<bool>,
    pub dropout_min: Option<Scalar>,
    pub dropout_max: Option<Scalar>,
    pub norms: Option<&'a Vec<String>>,
    pub noise_enabled: Option<bool>,
    pub optimizers: Option<&'a Vec<String>>,
    pub batch_sizes: Option<&'a Vec<String>>,
    pub losses: Option<&'a Vec<String>>,
    pub schedulers: Option<&'a Vec<String>>,
    pub grad_clips: Option<&'a Vec<String>>,
    pub pi_mape_beta_min: Option<Scalar>,
    pub pi_mape_beta_max: Option<Scalar>,
}

/// The first of two settings that was given.
pub open spec fn or_else<T>(first: Option<T>, second: Option<T>) -> Option<T> {
    match first {
        Some(value) => Some(value),
        None => second,
    }
}

/// A setting for a model type: a complex model falls back on the base setting
/// where it has none of its own.
pub open spec fn inherited<T>(
    model_type: ModelType,
    base: Option<T>,
    complex: Option<T>,
) -> Option<T> {
    match model_type {
        ModelType::Real => base,
        ModelType::Complex => or_else(complex, base),
    }
}

/// A setting for a model type that the other type never takes over.
pub open spec fn separate<T>(
    model_type: ModelType,
    base: Option<T>,
    complex: Option<T>,
) -> Option<T> {
    match model_type {
        ModelType::Real => base,
        ModelType::Complex => complex,
    }
}

/// A borrowed setting, by its value.
pub open spec fn value_of<T>(setting: Option<&T>) -> Option<T> {
    match setting {
        Some(value) => Some(*value),
        None => None,
    }
}

impl<'a> EffectiveSearchSpace<'a> {
    /// This is what `config` asks of `model_type`. Layer widths and activations are
    /// kept apart; all other settings are inherited, normalisations as they are;
    /// the range of the tangent weight is there for complex models only.
    pub open spec fn is_effective(&self, config: SearchSpaceConfig, model_type: ModelType) -> bool {
        &&& value_of(self.hidden_sizes) == separate(
            model_type,
            config.hidden_sizes,
            config.complex_hidden_sizes,
        )
        &&& value_of(self.activations) == separate(
            model_type,
            config.activations,
            config.complex_activations,
        )
        &&& self.lr_min == inherited(model_type, config.lr_min, config.complex_lr_min)
        &&& self.lr_max == inherited(model_type, config.lr_max, config.complex_lr_max)
        &&& self.weight_decay_min == inherited(
            model_type,
            config.weight_decay_min,
            config.complex_weight_decay_min,
        )
        &&& self.weight_decay_max == inherited(
            model_type,
            config.weight_decay_max,
            config.complex_weight_decay_max,
        )
        &&& self.dropout_enabled == inherited(
            model_type,
            config.dropout_enabled,
            config.complex_dropout_enabled,
        )
        &&& self.dropout_min == inherited(
            model_type,
            config.dropout_min,
            config.complex_dropout_min,
        )
        &&& self.dropout_max == inherited(
            model_type,
            config.dropout_max,
            config.complex_dropout_max,
        )
        &&& value_of(self.norms) == config.norms
        &&& self.noise_enabled == inherited(
            model_type,
            config.noise_enabled,
            config.complex_noise_enabled,
        )
        &&& value_of(self.optimizers) == inherited(
            model_type,
            config.optimizers,
            config.complex_optimizers,
        )
        &&& value_of(self.batch_sizes) == inherited(
            model_type,
            config.batch_sizes,
            config.complex_batch_sizes,
        )
        &&& value_of(self.losses) == inherited(model_type, config.losses, config.complex_losses)
        &&& value_of(self.schedulers) == inherited(
            model_type,
            config.schedulers,
            config.complex_schedulers,
        )
        &&& value_of(self.grad_clips) == inherited(
            model_type,
            config.grad_clips,
            config.complex_grad_clips,
        )
        &&& self.pi_mape_beta_min == separate(model_type, None, config.pi_mape_beta_min)
        &&& self.pi_mape_beta_max == separate(model_type, None, config.pi_mape_beta_max)
    }
}

fn borrow<T>(setting: &Option<T>) -> (result: Option<&T>)
    ensures
        value_of(result) == *setting,
{
    match setting {
        Some(value) => Some(value),
        None => None,
    }
}

fn borrow_first<'a, T>(first: &'a Option<T>, second: &'a Option<T>) -> (result: Option<&'a T>)
    ensures
        value_of(result) == or_else(*first, *second),
{
    match first {
        Some(value) => Some(value),
        None => borrow(second),
    }
}

fn first_set<T: Copy>(first: Option<T>, second: Option<T>) -> (result: Option<T>)
    ensures
        result == or_else(first, second),
{
    match first {
        Some(value) => Some(value),
        None => second,
    }
}

impl SearchSpaceConfig {
    /// What this asks of one model type.
    pub fn effective(&self, model_type: ModelType) -> (result: EffectiveSearchSpace<'_>)
        ensures
            result.is_effective(*self, model_type),
    {
        match model_type {
            ModelType::Real => EffectiveSearchSpace {
                hidden_sizes: borrow(&self.hidden_sizes),
                activations: borrow(&self.activations),
                lr_min: self.lr_min,
                lr_max: self.lr_max,
                weight_decay_min: self.weight_decay_min,
                weight_decay_max: self.weight_decay_max,
                dropout_enabled: self.dropout_enabled,
                dropout_min: self.dropout_min,
                dropout_max: self.dropout_max,
                norms: borrow(&self.norms),
                noise_enabled: self.noise_enabled,
                optimizers: borrow(&self.optimizers),
                batch_sizes: borrow(&self.batch_sizes),
                losses: borrow(&self.losses),
                schedulers: borrow(&self.schedulers),
                grad_clips: borrow(&self.grad_clips),
                pi_mape_beta_min: None,
                pi_mape_beta_max: None,
            },
            ModelType::Complex => EffectiveSearchSpace {
                hidden_sizes: borrow(&self.complex_hidden_sizes),
                activations: borrow(&self.complex_activations),
                lr_min: first_set(self.complex_lr_min, self.lr_min),
                lr_max: first_set(self.complex_lr_max, self.lr_max),
                weight_decay_min: first_set(self.complex_weight_decay_min, self.weight_decay_min),
                weight_decay_max: first_set(self.complex_weight_decay_max, self.weight_decay_max),
                dropout_enabled: first_set(self.complex_dropout_enabled, self.dropout_enabled),
                dropout_min: first_set(self.complex_dropout_min, self.dropout_min),
                dropout_max: first_set(self.complex_dropout_max, self.dropout_max),
                norms: borrow(&self.norms),
                noise_enabled: first_set(self.complex_noise_enabled, self.noise_enabled),
                optimizers: borrow_first(&self.complex_optimizers, &self.optimizers),
                batch_sizes: borrow_first(&self.complex_batch_sizes, &self.batch_sizes),
                losses: borrow_first(&self.complex_losses, &self.losses),
                schedulers: borrow_first(&self.complex_schedulers, &self.schedulers),
                grad_clips: borrow_first(&self.complex_grad_clips, &self.grad_clips),
                pi_mape_beta_min: self.pi_mape_beta_min,
                pi_mape_beta_max: self.pi_mape_beta_max,
            },
        }
    }
}

/// The names that a model type understands, by category. Losses are those that
/// suit the type.
#[derive(Debug)]
pub struct Vocabulary {
    pub activations: Vec<String>,
    pub norms: Vec<String>,
    pub optimizers: Vec<String>,
    pub batch_sizes: Vec<String>,
    pub losses: Vec<String>,
    pub schedulers: Vec<String>,
    pub grad_clips: Vec<String>,
}

/// A search space: for each parameter what replaces the default of the model type,
/// where anything does.
#[derive(Debug)]
pub struct MlpSearchSpace {
    pub hidden_size: Option<Vec<i64>>,
    pub activation: Option<Vec<String>>,
    /// Sampled on a logarithmic scale.
    pub lr: Option<(Scalar, Scalar)>,
    /// Sampled on a logarithmic scale.
    pub weight_decay: Option<(Scalar, Scalar)>,
    pub norm: Option<Vec<String>>,
    pub optimizer: Option<Vec<String>>,
    pub train_batch_size: Option<Vec<String>>,
    pub loss: Option<Vec<String>>,
    pub scheduler: Option<Vec<String>>,
    pub grad_clip_norm: Option<Vec<String>>,
    pub dropout_p: Option<(Scalar, Scalar)>,
    pub input_noise_std: Option<(Scalar, Scalar)>,
}

/// The names among `names` that are known, in their order.
pub open spec fn known_names(names: Seq<Seq<char>>, known: Seq<Seq<char>>) -> Seq<Seq<char>> {
    names.filter(|name: Seq<char>| known.contains(name))
}

/// The subset that a list of names leaves: the known ones, provided that there is
/// one.
pub open spec fn subset_of(names: Option<Vec<String>>, known: Seq<String>) -> Option<
    Seq<Seq<char>>,
> {
    match names {
        Some(list) => {
            let kept = known_names(views(list@), views(known));
            if kept.len() > 0 {
                Some(kept)
            } else {
                None
            }
        },
        None => None,
    }
}

/// A list of names, by its texts.
pub open spec fn name_list(names: Option<Vec<String>>) -> Option<Seq<Seq<char>>> {
    match names {
        Some(list) => Some(views(list@)),
        None => None,
    }
}

/// The range of a logarithmic scale: positive and not empty, else none.
pub open spec fn log_range(min: Option<Scalar>, max: Option<Scalar>) -> Option<(Scalar, Scalar)> {
    match (min, max) {
        (Some(lo), Some(hi)) => if (Scalar { bits: 0 }).lt(lo) && lo.lt(hi) {
            Some((lo, hi))
        } else {
            None
        },
        _ => None,
    }
}

/// The value, or zero where it is negative or not a number.
pub open spec fn at_least_zero(value: Scalar) -> Scalar {
    if value.nan() || value.lt(Scalar { bits: 0 }) {
        Scalar { bits: 0 }
    } else {
        value
    }
}

/// The value, or one where it is greater or not a number.
pub open spec fn at_most_one(value: Scalar) -> Scalar {
    if value.nan() || (Scalar { bits: ONE_BITS }).lt(value) {
        Scalar { bits: ONE_BITS }
    } else {
        value
    }
}

/// The range of a parameter that is turned off.
pub open spec fn off_range() -> (Scalar, Scalar) {
    (Scalar { bits: 0 }, Scalar { bits: OFF_BITS })
}

/// The range of dropout probabilities: off where it is disabled, else between
/// bounds that are brought into the unit interval, from zero where they are in the
/// wrong order; none where no upper bound is given.
pub open spec fn dropout_range(
    enabled: Option<bool>,
    min: Option<Scalar>,
    max: Option<Scalar>,
) -> Option<(Scalar, Scalar)> {
    if enabled == Some(false) {
        Some(off_range())
    } else {
        match max {
            Some(upper) => {
                let hi = at_least_zero(at_most_one(upper));
                let lo = at_least_zero(
                    match min {
                        Some(lower) => lower,
                        None => Scalar { bits: 0 },
                    },
                );
                if lo.le(hi) {
                    Some((lo, hi))
                } else {
                    Some((Scalar { bits: 0 }, hi))
                }
            },
            None => None,
        }
    }
}

impl MlpSearchSpace {
    /// This is the search space of `model_type` under `config`.
    pub open spec fn is_space_of(
        &self,
        config: SearchSpaceConfig,
        model_type: ModelType,
        known: Vocabulary,
    ) -> bool {
        let widths = separate(model_type, config.hidden_sizes, config.complex_hidden_sizes);
        &&& match self.hidden_size {
            Some(sizes) => widths is Some && widths->0@.len() > 0 && sizes@ == widths->0@,
            None => widths is None || widths->0@.len() == 0,
        }
        &&& name_list(self.activation) == subset_of(
            separate(model_type, config.activations, config.complex_activations),
            known.activations@,
        )
        &&& self.lr == log_range(
            inherited(model_type, config.lr_min, config.complex_lr_min),
            inherited(model_type, config.lr_max, config.complex_lr_max),
        )
        &&& self.weight_decay == log_range(
            inherited(model_type, config.weight_decay_min, config.complex_weight_decay_min),
            inherited(model_type, config.weight_decay_max, config.complex_weight_decay_max),
        )
        &&& name_list(self.norm) == subset_of(config.norms, known.norms@)
        &&& name_list(self.optimizer) == subset_of(
            inherited(model_type, config.optimizers, config.complex_optimizers),
            known.optimizers@,
        )
        &&& name_list(self.train_batch_size) == subset_of(
            inherited(model_type, config.batch_sizes, config.complex_batch_sizes),
            known.batch_sizes@,
        )
        &&& name_list(self.loss) == subset_of(
            inherited(model_type, config.losses, config.complex_losses),
            known.losses@,
        )
        &&& name_list(self.scheduler) == subset_of(
            inherited(model_type, config.schedulers, config.complex_schedulers),
            known.schedulers@,
        )
        &&& name_list(self.grad_clip_norm) == subset_of(
            inherited(model_type, config.grad_clips, config.complex_grad_clips),
            known.grad_clips@,
        )
        &&& self.dropout_p == dropout_range(
            inherited(model_type, config.dropout_enabled, config.complex_dropout_enabled),
            inherited(model_type, config.dropout_min, config.complex_dropout_min),
            inherited(model_type, config.dropout_max, config.complex_dropout_max),
        )
        &&& self.input_noise_std == if inherited(
            model_type,
            config.noise_enabled,
            config.complex_noise_enabled,
        ) == Some(false) {
            Some(off_range())
        } else {
            None
        }
    }
}

fn is_known(name: &str, known: &Vec<String>) -> (result: bool)
    ensures
        result == views(known@).contains(name@),
{
    let mut i: usize = 0;
    while i < known.len()
        invariant
            i <= known@.len(),
            forall|k: int| 0 <= k < i ==> (#[trigger] known@[k])@ != name@,
        decreases known@.len() - i,
    {
        if same_text(known[i].as_str(), name) {
            proof {
                assert(views(known@)[i as int] == name@);
            }
            return true;
        }
        i += 1;
    }
    proof {
        assert forall|k: int| 0 <= k < views(known@).len() implies views(known@)[k] != name@ by {
            assert(known@[k]@ != name@);
        }
    }
    false
}

fn keep_known(names: Option<&Vec<String>>, known: &Vec<String>) -> (result: Option<Vec<String>>)
    ensures
        name_list(result) == subset_of(value_of(names), known@),
{
    let list = match names {
        Some(list) => list,
        None => {
            return None;
        },
    };
    let ghost all = views(list@);
    let mut kept: Vec<String> = Vec::new();
    let mut i: usize = 0;
    proof {
        reveal(Seq::filter);
        assert(all.take(0) == Seq::<Seq<char>>::empty());
        assert(views(kept@) == known_names(all.take(0), views(known@)));
    }
    while i < list.len()
        invariant
            i <= list@.len(),
            all == views(list@),
            views(kept@) == known_names(all.take(i as int), views(known@)),
        decreases list@.len() - i,
    {
        proof {
            reveal(Seq::filter);
            assert(all.take(i + 1).drop_last() == all.take(i as int));
            assert(all.take(i + 1).last() == list@[i as int]@);
        }
        if is_known(list[i].as_str(), known) {
            let copy = copy_of(list[i].as_str());
            let ghost before = views(kept@);
            kept.push(copy);
            proof {
                assert(views(kept@) == before.push(copy@));
            }
        }
        i += 1;
    }
    proof {
        assert(all.take(all.len() as int) == all);
        assert(views(kept@).len() == kept@.len());
    }
    if kept.len() > 0 {
        Some(kept)
    } else {
        None
    }
}

fn logarithmic(min: Option<Scalar>, max: Option<Scalar>) -> (result: Option<(Scalar, Scalar)>)
    ensures
        result == log_range(min, max),
{
    match (min, max) {
        (Some(lo), Some(hi)) => if lo.is_positive() && lo.less_than(hi) {
            Some((lo, hi))
        } else {
            None
        },
        _ => None,
    }
}

fn dropout_bounds(enabled: Option<bool>, min: Option<Scalar>, max: Option<Scalar>) -> (result: Option<
    (Scalar, Scalar),
>)
    ensures
        result == dropout_range(enabled, min, max),
{
    if let Some(false) = enabled {
        return Some((Scalar::zero(), Scalar::from_bits(OFF_BITS)));
    }
    match max {
        Some(upper) => {
            let hi = if upper.is_nan() || Scalar::one().less_than(upper) {
                Scalar::one()
            } else if upper.less_than(Scalar::zero()) {
                Scalar::zero()
            } else {
                upper
            };
            let given = match min {
                Some(lower) => lower,
                None => Scalar::zero(),
            };
            let lo = if given.is_nan() || given.less_than(Scalar::zero()) {
                Scalar::zero()
            } else {
                given
            };
            if lo.at_most(hi) {
                Some((lo, hi))
            } else {
                Some((Scalar::zero(), hi))
            }
        },
        None => None,
    }
}

/// The search space of a model type. Names that the type does not understand are
/// dropped; a list of which nothing is left, a range that is empty, and a setting
/// that is not given leave the default of the type in place.
pub fn build_custom_search_space(
    config: &SearchSpaceConfig,
    model_type: ModelType,
    known: &Vocabulary,
) -> (result: MlpSearchSpace)
    ensures
        result.is_space_of(*config, model_type, *known),
{
    let eff = config.effective(model_type);
    let hidden_size = match eff.hidden_sizes {
        Some(sizes) => if sizes.len() > 0 {
            Some(sizes.clone())
        } else {
            None
        },
        None => None,
    };
    let input_noise_std = match eff.noise_enabled {
        Some(false) => Some((Scalar::zero(), Scalar::from_bits(OFF_BITS))),
        _ => None,
    };
    MlpSearchSpace {
        hidden_size,
        activation: keep_known(eff.activations, &known.activations),
        lr: logarithmic(eff.lr_min, eff.lr_max),
        weight_decay: logarithmic(eff.weight_decay_min, eff.weight_decay_max),
        norm: keep_known(eff.norms, &known.norms),
        optimizer: keep_known(eff.optimizers, &known.optimizers),
        train_batch_size: keep_known(eff.batch_sizes, &known.batch_sizes),
        loss: keep_known(eff.losses, &known.losses),
        scheduler: keep_known(eff.schedulers, &known.schedulers),
        grad_clip_norm: keep_known(eff.grad_clips, &known.grad_clips),
        dropout_p: dropout_bounds(eff.dropout_enabled, eff.dropout_min, eff.dropout_max),
        input_noise_std,
    }
}

/// Layer widths and activations of real models never reach the search space of
/// complex ones, nor the other way round.
pub proof fn widths_and_activations_are_kept_apart(
    first: SearchSpaceConfig,
    second: SearchSpaceConfig,
    model_type: ModelType,
    known: Vocabulary,
    a: MlpSearchSpace,
    b: MlpSearchSpace,
)
    requires
        a.is_space_of(first, model_type, known),
        b.is_space_of(second, model_type, known),
        model_type == ModelType::Complex ==> first.complex_hidden_sizes
            == second.complex_hidden_sizes && first.complex_activations
            == second.complex_activations,
        model_type == ModelType::Real ==> first.hidden_sizes == second.hidden_sizes
            && first.activations == second.activations,
    ensures
        a.hidden_size is Some <==> b.hidden_size is Some,
        a.hidden_size is Some ==> a.hidden_size->0@ == b.hidden_size->0@,
        name_list(a.activation) == name_list(b.activation),
{
}

/// Every name in a search space is one that the model type understands.
pub proof fn spaces_hold_known_names(names: Option<Vec<String>>, known: Seq<String>)
    ensures
        subset_of(names, known) matches Some(kept) ==> kept.len() > 0 && (forall|i: int|
            0 <= i < kept.len() ==> views(known).contains(#[trigger] kept[i])),
{
    if names is Some {
        let list = views(names->0@);
        let pred = |name: Seq<char>| views(known).contains(name);
        let kept = list.filter(pred);
        assert forall|i: int| 0 <= i < kept.len() implies views(known).contains(
            #[trigger] kept[i],
        ) by {
            list.lemma_filter_pred(pred, i);
        }
    }
}

/// Bounds of a dropout range lie between zero and one, in order.
pub proof fn dropout_ranges_are_probabilities(
    enabled: Option<bool>,
    min: Option<Scalar>,
    max: Option<Scalar>,
)
    ensures
        dropout_range(enabled, min, max) matches Some(range) ==> (Scalar { bits: 0 }).le(range.0)
            && range.0.le(range.1) && range.1.le(Scalar { bits: ONE_BITS }),
{
}

/// How the importance of parameters for an objective was estimated.
#[derive(Clone, Copy, Debug, PartialEq, Eq, Structural)]
pub enum ImportanceMethod {
    /// By functional analysis of variance.
    Fanova,
    /// By rank correlation, after the analysis of variance had failed.
    SpearmanAfterFailure,
    /// By rank correlation, as there were too many trials for anything else.
    Spearman,
}

impl ImportanceMethod {
    /// The name under which it is reported.
    pub open spec fn label(self) -> Seq<char> {
        match self {
            ImportanceMethod::Fanova => "fANOVA"@,
            ImportanceMethod::SpearmanAfterFailure => "Spearman — fANOVA failed"@,
            ImportanceMethod::Spearman => "Spearman"@,
        }
    }

    /// The name under which it is reported.
    pub fn as_str(self) -> (result: &'static str)
        ensures
            result@ == self.label(),
    {
        match self {
            ImportanceMethod::Fanova => "fANOVA",
            ImportanceMethod::SpearmanAfterFailure => "Spearman — fANOVA failed",
            ImportanceMethod::Spearman => "Spearman",
        }
    }
}

/// Scores of parameters.
pub type Scores = Vec<(String, Scalar)>;

/// Main effects of parameters, and what their interactions add up to.
#[derive(Debug)]
pub struct Effects {
    pub main_effects: Scores,
    pub interactions: Scalar,
}

/// The importance of parameters for one objective.
#[derive(Debug)]
pub struct ObjectiveImportance {
    pub objective: String,
    pub method: ImportanceMethod,
    pub scores: Scores,
    /// The share of interactions; known with the analysis of variance only.
    pub interactions: Option<Scalar>,
}

/// Whether importance is estimated by rank correlation alone.
pub fn skips_fanova(trials: usize) -> (result: bool)
    ensures
        result == (trials > FANOVA_TRIAL_CAP),
{
    trials > FANOVA_TRIAL_CAP
}

/// The method for one objective of a study with `trials` trials, where `effects`
/// is what the analysis of variance gave.
pub open spec fn method_for(trials: usize, effects: Option<Effects>) -> ImportanceMethod {
    if trials > FANOVA_TRIAL_CAP {
        ImportanceMethod::Spearman
    } else if effects is Some {
        ImportanceMethod::Fanova
    } else {
        ImportanceMethod::SpearmanAfterFailure
    }
}

/// The importance for one objective. `effects` is what the analysis of variance
/// gave, `correlations` what rank correlation did.
pub fn objective_importance(
    objective: String,
    trials: usize,
    effects: Option<Effects>,
    correlations: Scores,
) -> (result: ObjectiveImportance)
    ensures
        result.objective == objective,
        result.method == method_for(trials, effects),
        result.method == ImportanceMethod::Fanova ==> result.scores == effects->0.main_effects
            && result.interactions == Some(effects->0.interactions),
        result.method != ImportanceMethod::Fanova ==> result.scores == correlations
            && result.interactions is None,
{
    if trials > FANOVA_TRIAL_CAP {
        return ObjectiveImportance {
            objective,
            method: ImportanceMethod::Spearman,
            scores: correlations,
            interactions: None,
        };
    }
    match effects {
        Some(found) => ObjectiveImportance {
            objective,
            method: ImportanceMethod::Fanova,
            scores: found.main_effects,
            interactions: Some(found.interactions),
        },
        None => ObjectiveImportance {
            objective,
            method: ImportanceMethod::SpearmanAfterFailure,
            scores: correlations,
            interactions: None,
        },
    }
}

/// How a trial ended, as it is reported.
pub fn trial_status(successful: bool) -> (result: &'static str)
    ensures
        result@ == if successful {
            "completed"@
        } else {
            "failed"@
        },
{
    if successful {
        "completed"
    } else {
        "failed"
    }
}

/// Input noise is turned off exactly where the setting that applies to the model type
/// says so: that of real models for these, the own setting of complex models for those,
/// and the setting of real models for complex ones without their own. Where it is on, or
/// nothing is said, the default of the type stays.
pub proof fn noise_is_off_where_it_is_disabled(
    config: SearchSpaceConfig,
    model_type: ModelType,
    known: Vocabulary,
    space: MlpSearchSpace,
)
    requires
        space.is_space_of(config, model_type, known),
    ensures
        ({
            let off = Some((Scalar { bits: 0 }, Scalar { bits: 0x3cd2_03af_9ee7_5616 }));
            match model_type {
                ModelType::Real => {
                    &&& config.noise_enabled == Some(false) ==> space.input_noise_std == off
                    &&& config.noise_enabled == Some(true) ==> space.input_noise_std is None
                    &&& config.noise_enabled is None ==> space.input_noise_std is None
                },
                ModelType::Complex => match config.complex_noise_enabled {
                    Some(enabled) => {
                        &&& !enabled ==> space.input_noise_std == off
                        &&& enabled ==> space.input_noise_std is None
                    },
                    None => {
                        &&& config.noise_enabled == Some(false) ==> space.input_noise_std == off
                        &&& config.noise_enabled == Some(true) ==> space.input_noise_std is None
                        &&& config.noise_enabled is None ==> space.input_noise_std is None
                    },
                },
            }
        }),
{
}

/// A pair of bounds is searched where it is positive and not empty, as it stands, and
/// nowhere else.
pub open spec fn searches(
    range: Option<(Scalar, Scalar)>,
    min: Option<Scalar>,
    max: Option<Scalar>,
) -> bool {
    &&& range matches Some(pair) ==> min == Some(pair.0) && max == Some(pair.1) && (Scalar {
        bits: 0,
    }).lt(pair.0) && pair.0.lt(pair.1)
    &&& min is Some && max is Some && (Scalar { bits: 0 }).lt(min->0) && min->0.lt(max->0)
        ==> range is Some
}

/// Learning rates are searched between the bounds on learning rates and weight decays
/// between those on weight decays, a complex model taking its own bound where it has one.
pub proof fn rates_are_searched_between_their_bounds(
    config: SearchSpaceConfig,
    model_type: ModelType,
    known: Vocabulary,
    space: MlpSearchSpace,
)
    requires
        space.is_space_of(config, model_type, known),
    ensures
        model_type == ModelType::Real ==> {
            &&& searches(space.lr, config.lr_min, config.lr_max)
            &&& searches(space.weight_decay, config.weight_decay_min, config.weight_decay_max)
        },
        model_type == ModelType::Complex ==> {
            &&& searches(
                space.lr,
                if config.complex_lr_min is Some {
                    config.complex_lr_min
                } else {
                    config.lr_min
                },
                if config.complex_lr_max is Some {
                    config.complex_lr_max
                } else {
                    config.lr_max
                },
            )
            &&& searches(
                space.weight_decay,
                if config.complex_weight_decay_min is Some {
                    config.complex_weight_decay_min
                } else {
                    config.weight_decay_min
                },
                if config.complex_weight_decay_max is Some {
                    config.complex_weight_decay_max
                } else {
                    config.weight_decay_max
                },
            )
        },
{
}

/// Dropout is off where the setting that applies disables it. Else probabilities in
/// order are searched as they stand, an upper bound alone is searched from zero, a lower
/// bound above the upper one is dropped, and without an upper bound the default stays.
pub proof fn dropout_follows_its_settings(
    config: SearchSpaceConfig,
    model_type: ModelType,
    known: Vocabulary,
    space: MlpSearchSpace,
)
    requires
        space.is_space_of(config, model_type, known),
    ensures
        ({
            let zero = Scalar { bits: 0 };
            let one = Scalar { bits: ONE_BITS };
            let complex = model_type == ModelType::Complex;
            let enabled = if complex && config.complex_dropout_enabled is Some {
                config.complex_dropout_enabled
            } else {
                config.dropout_enabled
            };
            let min = if complex && config.complex_dropout_min is Some {
                config.complex_dropout_min
            } else {
                config.dropout_min
            };
            let max = if complex && config.complex_dropout_max is Some {
                config.complex_dropout_max
            } else {
                config.dropout_max
            };
            &&& enabled == Some(false) ==> space.dropout_p == Some(
                (zero, Scalar { bits: 0x3cd2_03af_9ee7_5616 }),
            )
            &&& enabled != Some(false) && max is None ==> space.dropout_p is None
            &&& enabled != Some(false) && max is Some && zero.le(max->0) && max->0.le(one)
                ==> (space.dropout_p matches Some(range) && range.1 == max->0)
            &&& enabled != Some(false) && max is Some && one.lt(max->0)
                ==> (space.dropout_p matches Some(range) && range.1 == one)
            &&& enabled != Some(false) && max is Some && max->0.lt(zero)
                ==> (space.dropout_p matches Some(range) && range.1 == zero)
            &&& enabled != Some(false) && max is Some && min is None
                ==> (space.dropout_p matches Some(range) && range.0 == zero)
            &&& enabled != Some(false) && max is Some && min is Some && zero.le(min->0)
                && min->0.le(max->0) && max->0.le(one) ==> space.dropout_p == Some(
                (min->0, max->0),
            )
            &&& enabled != Some(false) && max is Some && min is Some && zero.lt(min->0)
                && max->0.lt(min->0)
                ==> (space.dropout_p matches Some(range) && range.0 == zero)
        }),
{
}

/// What is left of a list of names: the known ones and no others, in their order, and
/// nothing where none is known.
pub open spec fn narrows(
    kept: Option<Vec<String>>,
    asked: Option<Vec<String>>,
    known: Seq<String>,
) -> bool {
    &&& kept matches Some(list) ==> asked is Some && list@.len() > 0 && (forall|name: Seq<char>|
        #[trigger] views(list@).contains(name) <==> views(asked->0@).contains(name) && views(
            known,
        ).contains(name))
    &&& kept is None && asked is Some ==> forall|name: Seq<char>|
        #[trigger] views(asked->0@).contains(name) ==> !views(known).contains(name)
    &&& asked is Some && asked->0@.len() > 0 && (forall|name: Seq<char>| #[trigger]
        views(asked->0@).contains(name) ==> views(known).contains(name)) ==> kept is Some
        && views(kept->0@) == views(asked->0@)
}

proof fn lemma_filter_all(s: Seq<Seq<char>>, pred: spec_fn(Seq<char>) -> bool)
    requires
        forall|i: int| 0 <= i < s.len() ==> pred(#[trigger] s[i]),
    ensures
        s.filter(pred) == s,
    decreases s.len(),
{
    reveal(Seq::filter);
    if s.len() > 0 {
        let head = s.drop_last();
        assert forall|i: int| 0 <= i < head.len() implies pred(#[trigger] head[i]) by {
            assert(pred(s[i]));
        }
        lemma_filter_all(head, pred);
        assert(pred(s[s.len() - 1]));
        assert(head.push(s.last()) =~= s);
    } else {
        assert(s.filter(pred) =~= s);
    }
}

proof fn lemma_narrows(
    kept: Option<Vec<String>>,
    asked: Option<Vec<String>>,
    known: Seq<String>,
)
    requires
        name_list(kept) == subset_of(asked, known),
    ensures
        narrows(kept, asked, known),
{
    if asked is Some {
        let all = views(asked->0@);
        let pred = |name: Seq<char>| views(known).contains(name);
        let left = all.filter(pred);
        assert forall|name: Seq<char>| #[trigger] left.contains(name) <==> all.contains(name)
            && views(known).contains(name) by {
            if left.contains(name) {
                let k = choose|k: int| 0 <= k < left.len() && left[k] == name;
                all.lemma_filter_pred(pred, k);
                all.lemma_filter_contains_rev(pred, name);
            }
            if all.contains(name) && views(known).contains(name) {
                let k = choose|k: int| 0 <= k < all.len() && all[k] == name;
                all.lemma_filter_contains(pred, k);
            }
        }
        if kept is None {
            assert forall|name: Seq<char>| #[trigger] all.contains(name) implies !views(
                known,
            ).contains(name) by {
                if views(known).contains(name) {
                    assert(left.contains(name));
                }
            }
        }
        if forall|name: Seq<char>| #[trigger] all.contains(name) ==> views(known).contains(name) {
            assert forall|i: int| 0 <= i < all.len() implies pred(#[trigger] all[i]) by {
                assert(all.contains(all[i]));
            }
            lemma_filter_all(all, pred);
        }
    }
}

/// Every list of names in a search space is narrowed from the list for the same
/// parameter, by the names that are known for it. Complex models have their own
/// activations; of the other lists they take their own where they have one.
pub proof fn lists_are_narrowed_by_known_names(
    config: SearchSpaceConfig,
    model_type: ModelType,
    known: Vocabulary,
    space: MlpSearchSpace,
)
    requires
        space.is_space_of(config, model_type, known),
    ensures
        model_type == ModelType::Real ==> {
            &&& narrows(space.activation, config.activations, known.activations@)
            &&& narrows(space.norm, config.norms, known.norms@)
            &&& narrows(space.optimizer, config.optimizers, known.optimizers@)
            &&& narrows(space.train_batch_size, config.batch_sizes, known.batch_sizes@)
            &&& narrows(space.loss, config.losses, known.losses@)
            &&& narrows(space.scheduler, config.schedulers, known.schedulers@)
            &&& narrows(space.grad_clip_norm, config.grad_clips, known.grad_clips@)
        },
        model_type == ModelType::Complex ==> {
            &&& narrows(space.activation, config.complex_activations, known.activations@)
            &&& narrows(space.norm, config.norms, known.norms@)
            &&& config.complex_optimizers is Some ==> narrows(
                space.optimizer,
                config.complex_optimizers,
                known.optimizers@,
            )
            &&& config.complex_optimizers is None ==> narrows(
                space.optimizer,
                config.optimizers,
                known.optimizers@,
            )
            &&& config.complex_batch_sizes is Some ==> narrows(
                space.train_batch_size,
                config.complex_batch_sizes,
                known.batch_sizes@,
            )
            &&& config.complex_batch_sizes is None ==> narrows(
                space.train_batch_size,
                config.batch_sizes,
                known.batch_sizes@,
            )
            &&& config.complex_losses is Some ==> narrows(
                space.loss,
                config.complex_losses,
                known.losses@,
            )
            &&& config.complex_losses is None ==> narrows(space.loss, config.losses, known.losses@)
            &&& config.complex_schedulers is Some ==> narrows(
                space.scheduler,
                config.complex_schedulers,
                known.schedulers@,
            )
            &&& config.complex_schedulers is None ==> narrows(
                space.scheduler,
                config.schedulers,
                known.schedulers@,
            )
            &&& config.complex_grad_clips is Some ==> narrows(
                space.grad_clip_norm,
                config.complex_grad_clips,
                known.grad_clips@,
            )
            &&& config.complex_grad_clips is None ==> narrows(
                space.grad_clip_norm,
                config.grad_clips,
                known.grad_clips@,
            )
        },
{
    let t = model_type;
    lemma_narrows(
        space.activation,
        separate(t, config.activations, config.complex_activations),
        known.activations@,
    );
    lemma_narrows(space.norm, config.norms, known.norms@);
    lemma_narrows(
        space.optimizer,
        inherited(t, config.optimizers, config.complex_optimizers),
        known.optimizers@,
    );
    lemma_narrows(
        space.train_batch_size,
        inherited(t, config.batch_sizes, config.complex_batch_sizes),
        known.batch_sizes@,
    );
    lemma_narrows(
        space.loss,
        inherited(t, config.losses, config.complex_losses),
        known.losses@,
    );
    lemma_narrows(
        space.scheduler,
        inherited(t, config.schedulers, config.complex_schedulers),
        known.schedulers@,
    );
    lemma_narrows(
        space.grad_clip_norm,
        inherited(t, config.grad_clips, config.complex_grad_clips),
        known.grad_clips@,
    );
}

/// Layer widths are searched as they are listed for the model type, and an empty list
/// leaves the default.
pub proof fn widths_are_searched_as_listed(
    config: SearchSpaceConfig,
    model_type: ModelType,
    known: Vocabulary,
    space: MlpSearchSpace,
)
    requires
        space.is_space_of(config, model_type, known),
    ensures
        ({
            let listed = match model_type {
                ModelType::Real => config.hidden_sizes,
                ModelType::Complex => config.complex_hidden_sizes,
            };
            &&& listed is None ==> space.hidden_size is None
            &&& listed is Some && listed->0@.len() == 0 ==> space.hidden_size is None
            &&& listed is Some && listed->0@.len() > 0 ==> space.hidden_size is Some
                && space.hidden_size->0@ == listed->0@
        }),
{
}

/// What a configuration asks of real models is what it says without further ado. What it
/// asks of complex models is what it says of these, and where it says nothing what it
/// says of real ones; but widths and activations are their own, and only they have a
/// tangent weight.
pub proof fn complex_settings_come_before_the_base(
    config: SearchSpaceConfig,
    model_type: ModelType,
    space: EffectiveSearchSpace<'_>,
)
    requires
        space.is_effective(config, model_type),
    ensures
        value_of(space.norms) == config.norms,
        model_type == ModelType::Real ==> {
            &&& value_of(space.hidden_sizes) == config.hidden_sizes
            &&& value_of(space.activations) == config.activations
            &&& space.pi_mape_beta_min is None
            &&& space.pi_mape_beta_max is None
            &&& space.lr_min == config.lr_min
            &&& space.lr_max == config.lr_max
            &&& space.weight_decay_min == config.weight_decay_min
            &&& space.weight_decay_max == config.weight_decay_max
            &&& space.dropout_enabled == config.dropout_enabled
            &&& space.dropout_min == config.dropout_min
            &&& space.dropout_max == config.dropout_max
            &&& space.noise_enabled == config.noise_enabled
            &&& value_of(space.optimizers) == config.optimizers
            &&& value_of(space.batch_sizes) == config.batch_sizes
            &&& value_of(space.losses) == config.losses
            &&& value_of(space.schedulers) == config.schedulers
            &&& value_of(space.grad_clips) == config.grad_clips
        },
        model_type == ModelType::Complex ==> {
            &&& value_of(space.hidden_sizes) == config.complex_hidden_sizes
            &&& value_of(space.activations) == config.complex_activations
            &&& space.pi_mape_beta_min == config.pi_mape_beta_min
            &&& space.pi_mape_beta_max == config.pi_mape_beta_max
            &&& config.complex_lr_min is Some ==> space.lr_min == config.complex_lr_min
            &&& config.complex_lr_min is None ==> space.lr_min == config.lr_min
            &&& config.complex_lr_max is Some ==> space.lr_max == config.complex_lr_max
            &&& config.complex_lr_max is None ==> space.lr_max == config.lr_max
            &&& config.complex_weight_decay_min is Some ==> space.weight_decay_min
                == config.complex_weight_decay_min
            &&& config.complex_weight_decay_min is None ==> space.weight_decay_min
                == config.weight_decay_min
            &&& config.complex_weight_decay_max is Some ==> space.weight_decay_max
                == config.complex_weight_decay_max
            &&& config.complex_weight_decay_max is None ==> space.weight_decay_max
                == config.weight_decay_max
            &&& config.complex_dropout_enabled is Some ==> space.dropout_enabled
                == config.complex_dropout_enabled
            &&& config.complex_dropout_enabled is None ==> space.dropout_enabled
                == config.dropout_enabled
            &&& config.complex_dropout_min is Some ==> space.dropout_min
                == config.complex_dropout_min
            &&& config.complex_dropout_min is None ==> space.dropout_min == config.dropout_min
            &&& config.complex_dropout_max is Some ==> space.dropout_max
                == config.complex_dropout_max
            &&& config.complex_dropout_max is None ==> space.dropout_max == config.dropout_max
            &&& config.complex_noise_enabled is Some ==> space.noise_enabled
                == config.complex_noise_enabled
            &&& config.complex_noise_enabled is None ==> space.noise_enabled == config.noise_enabled
            &&& config.complex_optimizers is Some ==> value_of(space.optimizers)
                == config.complex_optimizers
            &&& config.complex_optimizers is None ==> value_of(space.optimizers)
                == config.optimizers
            &&& config.complex_batch_sizes is Some ==> value_of(space.batch_sizes)
                == config.complex_batch_sizes
            &&& config.complex_batch_sizes is None ==> value_of(space.batch_sizes)
                == config.batch_sizes
            &&& config.complex_losses is Some ==> value_of(space.losses) == config.complex_losses
            &&& config.complex_losses is None ==> value_of(space.losses) == config.losses
            &&& config.complex_schedulers is Some ==> value_of(space.schedulers)
                == config.complex_schedulers
            &&& config.complex_schedulers is None ==> value_of(space.schedulers)
                == config.schedulers
            &&& config.complex_grad_clips is Some ==> value_of(space.grad_clips)
                == config.complex_grad_clips
            &&& config.complex_grad_clips is None ==> value_of(space.grad_clips)
                == config.grad_clips
        },
{
}

/// Studies of one run have different names, each beginning with the name of the run, and a
/// single study has just that name.
pub proof fn studies_have_names_of_their_own(base: Seq<char>, studies: int)
    ensures
        studies <= 1 ==> study_name(base, ModelType::Real, studies) == base && study_name(
            base,
            ModelType::Complex,
            studies,
        ) == base,
        studies > 1 ==> {
            &&& study_name(base, ModelType::Real, studies) == base + "_real"@
            &&& study_name(base, ModelType::Complex, studies) == base + "_complex"@
            &&& study_name(base, ModelType::Real, studies) != study_name(
                base,
                ModelType::Complex,
                studies,
            )
        },
{
    reveal_strlit("_");
    reveal_strlit("real");
    reveal_strlit("complex");
    reveal_strlit("_real");
    reveal_strlit("_complex");
    if studies > 1 {
        assert("_"@ + "real"@ =~= "_real"@);
        assert("_"@ + "complex"@ =~= "_complex"@);
        assert(study_name(base, ModelType::Real, studies) =~= base + "_real"@);
        assert(study_name(base, ModelType::Complex, studies) =~= base + "_complex"@);
        assert((base + "_real"@).len() != (base + "_complex"@).len());
    }
}

/// Importance comes from the analysis of variance where that gave something and there
/// were at most two thousand trials, and from rank correlation else; the report tells a
/// failure from a study that was too large.
pub proof fn importance_methods_follow_the_study(trials: usize, effects: Option<Effects>)
    ensures
        trials > 2000 ==> method_for(trials, effects) is Spearman,
        trials <= 2000 && effects is Some ==> method_for(trials, effects) is Fanova,
        trials <= 2000 && effects is None ==> method_for(trials, effects)
            is SpearmanAfterFailure,
{
}

/// Families are named in any case, with space around the name or not; the word for both
/// means the real family and then the complex one, and no other name is known.
pub proof fn families_are_asked_by_name(name: Seq<char>)
    ensures
        lowered(trimmed(name)) == "both"@ ==> model_types_named(name) == Some(
            seq![ModelType::Real, ModelType::Complex],
        ),
        lowered(trimmed(name)) == "real"@ ==> model_types_named(name) == Some(
            seq![ModelType::Real],
        ),
        lowered(trimmed(name)) == "complex"@ ==> model_types_named(name) == Some(
            seq![ModelType::Complex],
        ),
        model_types_named(name) is Some ==> lowered(trimmed(name)) == "both"@ || lowered(
            trimmed(name),
        ) == "real"@ || lowered(trimmed(name)) == "complex"@,
{
    reveal_strlit("both");
    reveal_strlit("real");
    reveal_strlit("complex");
    assert("both"@[0] == 'b' && "real"@[0] == 'r' && "complex"@[0] == 'c');
}

} // verus!

//! The form in which a study is submitted.

use super::train_form::TrainSplits;
use crate::base::error::CoreError;
use crate::data::generation::PermittivitySample;
use crate::json::{
    counts_read_back, distinct_keys, field_views, json_field, json_object_text,
    object_text, without_doubles, JsonField, JsonValue, JsonView,
};
use crate::text::{copy_of, same_text};
use vstd::prelude::*;

verus! {

/// A submitted study.
#[derive(Debug)]
pub struct HpoForm {
    pub dataset_id: i64,
    pub study_name: String,
    pub model_type: String,
    pub n_trials: usize,
    pub max_epochs: usize,
    pub n_jobs: usize,
    pub patience: usize,
    pub warmup_epochs: usize,
    pub seed: u64,
    pub search_space_json: String,
}

/// The study's name where none is given.
pub fn default_study_name() -> (result: String)
    ensures
        result@ == "hpo_study"@,
{
    copy_of("hpo_study")
}

/// The model type where none is given.
pub fn default_model_type() -> (result: String)
    ensures
        result@ == "real"@,
{
    copy_of("real")
}

/// The number of trials where none is given.
pub fn default_n_trials() -> (result: usize)
    ensures
        result == 50,
{
    50
}

/// The number of epochs where none is given.
pub fn default_max_epochs() -> (result: usize)
    ensures
        result == 25,
{
    25
}

/// The patience where none is given. Less would stop trials too early.
pub fn default_patience() -> (result: usize)
    ensures
        result == 10,
{
    10
}

/// The number of warm-up epochs where none is given.
pub fn default_warmup_epochs() -> (result: usize)
    ensures
        result == 10,
{
    10
}

/// The seed where none is given.
pub fn default_seed() -> (result: u64)
    ensures
        result == 42,
{
    42
}

/// A study as it is run.
#[derive(Debug)]
pub struct HpoWorkflowConfig {
    pub train_samples: Vec<PermittivitySample>,
    pub val_samples: Vec<PermittivitySample>,
    pub test_samples: Vec<PermittivitySample>,
    pub model_type: String,
    pub n_trials: usize,
    pub n_jobs: usize,
    pub max_epochs: usize,
    pub patience: usize,
    pub warmup_epochs: usize,
    pub study_name: String,
    pub seed: u64,
    /// Settings of the search space; `None` searches the standard one.
    pub search_space_json: Option<String>,
}

/// A study that is ready to run, with its settings as text.
#[derive(Debug)]
pub struct BuiltHpoSubmission {
    /// `real`, `complex` or `both`, as submitted.
    pub model_type: String,
    pub study_name: String,
    pub dataset_id: i64,
    pub n_trials: usize,
    /// The trials of all model types together.
    pub total_trials: usize,
    pub config: HpoWorkflowConfig,
    pub config_json: String,
}

/// How many studies a model type asks for.
pub open spec fn study_count(model_type: Seq<char>) -> int {
    if model_type == "both"@ {
        2
    } else {
        1
    }
}

/// The settings that a study keeps.
pub open spec fn kept_settings(form: HpoForm) -> Seq<(Seq<char>, JsonView)> {
    seq![
        ("model_type"@, JsonView::Text(form.model_type@)),
        ("n_trials"@, JsonView::Integer(form.n_trials as u64)),
        ("max_epochs"@, JsonView::Integer(form.max_epochs as u64)),
        ("n_jobs"@, JsonView::Integer(form.n_jobs as u64)),
        ("patience"@, JsonView::Integer(form.patience as u64)),
        ("warmup_epochs"@, JsonView::Integer(form.warmup_epochs as u64)),
        ("seed"@, JsonView::Integer(form.seed)),
    ]
}

impl HpoWorkflowConfig {
    /// The study that a form describes, over the samples.
    pub open spec fn is_study_of(&self, form: HpoForm, splits: TrainSplits) -> bool {
        &&& self.train_samples == splits.train
        &&& self.val_samples == splits.val
        &&& self.test_samples == splits.test
        &&& self.model_type@ == form.model_type@
        &&& self.n_trials == form.n_trials
        &&& self.n_jobs == form.n_jobs
        &&& self.max_epochs == form.max_epochs
        &&& self.patience == form.patience
        &&& self.warmup_epochs == form.warmup_epochs
        &&& self.study_name@ == form.study_name@
        &&& self.seed == form.seed
        &&& form.search_space_json@.len() == 0 ==> self.search_space_json is None
        &&& form.search_space_json@.len() > 0 ==> self.search_space_json == Some(
            form.search_space_json,
        )
    }
}

/// The settings of a form, as fields.
fn settings_fields(form: &HpoForm) -> (result: Vec<JsonField>)
    ensures
        field_views(result@) == kept_settings(*form),
{
    let mut fields: Vec<JsonField> = Vec::new();
    fields.push(json_field("model_type", JsonValue::Text(copy_of(&form.model_type))));
    fields.push(json_field("n_trials", JsonValue::Integer(form.n_trials as u64)));
    fields.push(json_field("max_epochs", JsonValue::Integer(form.max_epochs as u64)));
    fields.push(json_field("n_jobs", JsonValue::Integer(form.n_jobs as u64)));
    fields.push(json_field("patience", JsonValue::Integer(form.patience as u64)));
    fields.push(json_field("warmup_epochs", JsonValue::Integer(form.warmup_epochs as u64)));
    fields.push(json_field("seed", JsonValue::Integer(form.seed)));
    assert(field_views(fields@) =~= kept_settings(*form));
    fields
}

/// The keys of a study's settings differ, and none of the values is a double.
proof fn lemma_kept_settings(form: HpoForm)
    ensures
        distinct_keys(kept_settings(form)),
        without_doubles(kept_settings(form)),
{
    reveal_strlit("model_type");
    reveal_strlit("n_trials");
    reveal_strlit("max_epochs");
    reveal_strlit("n_jobs");
    reveal_strlit("patience");
    reveal_strlit("warmup_epochs");
    reveal_strlit("seed");
    assert("model_type"@.len() == 10 && "max_epochs"@.len() == 10);
    assert("model_type"@[1] == 'o' && "max_epochs"@[1] == 'a');
    assert("n_trials"@.len() == 8 && "patience"@.len() == 8);
    assert("n_trials"@[0] == 'n' && "patience"@[0] == 'p');
    assert("n_jobs"@.len() == 6 && "warmup_epochs"@.len() == 13 && "seed"@.len() == 4);
}

impl HpoForm {
    /// The study over the samples, with its settings as JSON.
    pub fn build(self, splits: TrainSplits) -> (result: Result<BuiltHpoSubmission, CoreError>)
        requires
            self.n_trials * study_count(self.model_type@) <= usize::MAX,
        ensures
            result is Ok,
            result matches Ok(built) ==> {
                &&& built.model_type == self.model_type
                &&& built.study_name == self.study_name
                &&& built.dataset_id == self.dataset_id
                &&& built.n_trials == self.n_trials
                &&& built.total_trials == self.n_trials * study_count(self.model_type@)
                &&& built.config.is_study_of(self, splits)
                &&& json_object_text(kept_settings(self)) == Ok::<Seq<char>, Seq<char>>(
                    built.config_json@,
                )
                &&& counts_read_back(built.config_json@, kept_settings(self))
            },
    {
        let fields = settings_fields(&self);
        proof {
            lemma_kept_settings(self);
        }
        let config_json = match object_text(&fields) {
            Ok(text) => text,
            Err(message) => return Err(CoreError::Json(message)),
        };
        let total_trials: usize = if same_text(&self.model_type, "both") {
            self.n_trials * 2
        } else {
            self.n_trials
        };
        let named_space = self.search_space_json.as_str().unicode_len() > 0;
        let search_space_json = if named_space {
            Some(self.search_space_json)
        } else {
            None
        };
        let config = HpoWorkflowConfig {
            train_samples: splits.train,
            val_samples: splits.val,
            test_samples: splits.test,
            model_type: copy_of(&self.model_type),
            n_trials: self.n_trials,
            n_jobs: self.n_jobs,
            max_epochs: self.max_epochs,
            patience: self.patience,
            warmup_epochs: self.warmup_epochs,
            study_name: copy_of(&self.study_name),
            seed: self.seed,
            search_space_json,
        };
        Ok(
            BuiltHpoSubmission {
                model_type: self.model_type,
                study_name: self.study_name,
                dataset_id: self.dataset_id,
                n_trials: self.n_trials,
                total_trials,
                config,
                config_json,
            },
        )
    }
}

/// A form for both families asks for two studies, any other for one.
pub proof fn both_families_take_two_studies(model_type: Seq<char>)
    ensures
        model_type == "both"@ ==> study_count(model_type) == 2,
        model_type != "both"@ ==> study_count(model_type) == 1,
{
}

/// A study has what its form says, split by split and setting by setting.
pub proof fn studies_have_their_settings(
    config: HpoWorkflowConfig,
    form: HpoForm,
    splits: TrainSplits,
)
    requires
        config.is_study_of(form, splits),
    ensures
        config.train_samples == splits.train,
        config.val_samples == splits.val,
        config.test_samples == splits.test,
        config.model_type@ == form.model_type@,
        config.study_name@ == form.study_name@,
        config.n_trials == form.n_trials,
        config.n_jobs == form.n_jobs,
        config.max_epochs == form.max_epochs,
        config.patience == form.patience,
        config.warmup_epochs == form.warmup_epochs,
        config.seed == form.seed,
        form.search_space_json@.len() == 0 ==> config.search_space_json is None,
        form.search_space_json@.len() > 0 ==> config.search_space_json == Some(
            form.search_space_json,
        ),
{
}

/// Every count of a form is found again in the settings that are kept of it, under its
/// name.
pub proof fn kept_counts_are_read_back(text: Seq<char>, form: HpoForm)
    requires
        counts_read_back(text, kept_settings(form)),
    ensures
        crate::json::json_u64_field(text, "n_trials"@) == Some(form.n_trials as u64),
        crate::json::json_u64_field(text, "max_epochs"@) == Some(form.max_epochs as u64),
        crate::json::json_u64_field(text, "n_jobs"@) == Some(form.n_jobs as u64),
        crate::json::json_u64_field(text, "patience"@) == Some(form.patience as u64),
        crate::json::json_u64_field(text, "warmup_epochs"@) == Some(form.warmup_epochs as u64),
        crate::json::json_u64_field(text, "seed"@) == Some(form.seed),
        kept_settings(form)[0] == ("model_type"@, JsonView::Text(form.model_type@)),
{
    let fields = kept_settings(form);
    assert(fields[1].1 is Integer && fields[2].1 is Integer && fields[3].1 is Integer);
    assert(fields[4].1 is Integer && fields[5].1 is Integer && fields[6].1 is Integer);
}

} // verus!

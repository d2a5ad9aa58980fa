//! Settings of a hyper-parameter study.

use super::shared::{first_given, pick, pick_text};
use super::train::text_from;
use vstd::prelude::*;

verus! {

/// Settings of a study, as far as they were given.
#[derive(Debug, Default)]
pub struct HpoArgs {
    pub model_type: Option<String>,
    pub n_trials: Option<usize>,
    pub n_jobs: Option<usize>,
    pub max_epochs: Option<usize>,
    pub patience: Option<usize>,
    pub warmup_epochs: Option<usize>,
    pub study_name: Option<String>,
}

/// Settings of a study.
#[derive(Debug)]
pub struct HpoSettings {
    pub model_type: String,
    pub n_trials: usize,
    /// Parallel workers; zero lets the machine decide.
    pub n_jobs: usize,
    pub max_epochs: usize,
    pub patience: usize,
    pub warmup_epochs: usize,
    pub study_name: String,
}

impl HpoSettings {
    /// Every setting comes from the configuration file, else from the command
    /// line, else from the defaults; the name of the study looks at the command
    /// line first.
    pub open spec fn combines(&self, file: HpoArgs, line: HpoArgs) -> bool {
        &&& text_from(self.model_type, file.model_type, line.model_type, "real"@)
        &&& self.n_trials == first_given(file.n_trials, line.n_trials, 100)
        &&& self.n_jobs == first_given(file.n_jobs, line.n_jobs, 0)
        &&& self.max_epochs == first_given(file.max_epochs, line.max_epochs, 25)
        &&& self.patience == first_given(file.patience, line.patience, 5)
        &&& self.warmup_epochs == first_given(file.warmup_epochs, line.warmup_epochs, 5)
        &&& text_from(self.study_name, line.study_name, file.study_name, "hpo_study"@)
    }
}

/// Combines the settings of a configuration file and a command line.
pub fn combine_hpo_args(file: &HpoArgs, line: &HpoArgs) -> (result: HpoSettings)
    ensures
        result.combines(*file, *line),
{
    HpoSettings {
        model_type: pick_text(&file.model_type, &line.model_type, "real"),
        n_trials: pick(file.n_trials, line.n_trials, 100),
        n_jobs: pick(file.n_jobs, line.n_jobs, 0),
        max_epochs: pick(file.max_epochs, line.max_epochs, 25),
        patience: pick(file.patience, line.patience, 5),
        warmup_epochs: pick(file.warmup_epochs, line.warmup_epochs, 5),
        study_name: pick_text(&line.study_name, &file.study_name, "hpo_study"),
    }
}

/// What a configuration file sets, a study has, but for its name, which the command line
/// sets first.
pub proof fn studies_go_by_the_file_first(file: HpoArgs, line: HpoArgs, settings: HpoSettings)
    requires
        settings.combines(file, line),
    ensures
        file.model_type is Some ==> settings.model_type@ == file.model_type->0@,
        line.study_name is Some ==> settings.study_name@ == line.study_name->0@,
        file.n_trials is Some ==> settings.n_trials == file.n_trials->0,
        file.n_jobs is Some ==> settings.n_jobs == file.n_jobs->0,
        file.max_epochs is Some ==> settings.max_epochs == file.max_epochs->0,
        file.patience is Some ==> settings.patience == file.patience->0,
        file.warmup_epochs is Some ==> settings.warmup_epochs == file.warmup_epochs->0,
{
}

/// What is left open by the one, the other may set.
pub proof fn studies_go_by_the_line_next(file: HpoArgs, line: HpoArgs, settings: HpoSettings)
    requires
        settings.combines(file, line),
    ensures
        file.model_type is None && line.model_type is Some ==> settings.model_type@ == line.model_type->0@,
        line.study_name is None && file.study_name is Some ==> settings.study_name@ == file.study_name->0@,
        file.n_trials is None && line.n_trials is Some ==> settings.n_trials == line.n_trials->0,
        file.n_jobs is None && line.n_jobs is Some ==> settings.n_jobs == line.n_jobs->0,
        file.max_epochs is None && line.max_epochs is Some ==> settings.max_epochs == line.max_epochs->0,
        file.patience is None && line.patience is Some ==> settings.patience == line.patience->0,
        file.warmup_epochs is None && line.warmup_epochs is Some ==> settings.warmup_epochs == line.warmup_epochs->0,
{
}

/// What neither sets has its standing value.
pub proof fn studies_go_by_defaults_last(file: HpoArgs, line: HpoArgs, settings: HpoSettings)
    requires
        settings.combines(file, line),
    ensures
        file.model_type is None && line.model_type is None ==> settings.model_type@ == "real"@,
        file.study_name is None && line.study_name is None ==> settings.study_name@ == "hpo_study"@,
        file.n_trials is None && line.n_trials is None ==> settings.n_trials == 100,
        file.n_jobs is None && line.n_jobs is None ==> settings.n_jobs == 0,
        file.max_epochs is None && line.max_epochs is None ==> settings.max_epochs == 25,
        file.patience is None && line.patience is None ==> settings.patience == 5,
        file.warmup_epochs is None && line.warmup_epochs is None ==> settings.warmup_epochs == 5,
{
}

} // verus!

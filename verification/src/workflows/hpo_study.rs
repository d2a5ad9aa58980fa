//! How studies are run and summarized.

use super::hpo::{
    check_study_samples, lookup_form, model_types_named, parse_model_types, plan_studies, skips_fanova,
    study_name, trial_status, ObjectiveImportance, Scores, StudyPlan, FANOVA_TRIAL_CAP,
};
use super::hpo_form::HpoWorkflowConfig;
use super::train::{row_views, MetricRow};
use crate::base::error::CoreError;
use crate::model::{unknown_model_type, ModelType};
use crate::scalar::Scalar;
use crate::text::{concat2, concat3, copy_of, decimal, decimal_digits};
use vstd::prelude::*;
use vstd::string::StringExecFns;

verus! {

/// The pattern of 0.0001: a smaller share of interactions is not worth a line.
pub const SHOWN_INTERACTIONS_BITS: u64 = 0x3f1a_36e2_eb1c_432d;

/// A run of studies has samples in every split.
pub open spec fn has_all_splits(config: HpoWorkflowConfig) -> bool {
    config.train_samples@.len() > 0 && config.val_samples@.len() > 0
        && config.test_samples@.len() > 0
}

/// The studies of a run: one per model type. Splits are looked at first, then the
/// model type.
pub fn plan_hpo(config: &HpoWorkflowConfig) -> (result: Result<Vec<StudyPlan>, CoreError>)
    ensures
        result is Ok <==> has_all_splits(*config) && model_types_named(
            config.model_type@,
        ) is Some,
        result matches Ok(plans) ==> {
            let types = model_types_named(config.model_type@)->0;
            &&& plans@.len() == types.len()
            &&& forall|i: int|
                0 <= i < plans@.len() ==> (#[trigger] plans@[i]).model_type == types[i]
                    && plans@[i].name@ == study_name(
                    config.study_name@,
                    types[i],
                    types.len() as int,
                )
        },
        result matches Err(e) ==> e.says(
            if config.train_samples@.len() == 0 || config.val_samples@.len() == 0 {
                "HPO requires non-empty train/val samples"@
            } else if config.test_samples@.len() == 0 {
                "HPO requires a non-empty test split (objectives are computed on it)"@
            } else {
                unknown_model_type(lookup_form(config.model_type@)) + ", or 'both'"@
            },
        ),
{
    if let Err(e) = check_study_samples(
        config.train_samples.len(),
        config.val_samples.len(),
        config.test_samples.len(),
    ) {
        return Err(e);
    }
    let types = match parse_model_types(config.model_type.as_str()) {
        Ok(types) => types,
        Err(e) => return Err(e),
    };
    Ok(plan_studies(config.study_name.as_str(), &types))
}

/// How many jobs run at a time, in words.
pub open spec fn jobs_text(jobs: usize) -> Seq<char> {
    if jobs == 0 {
        "auto"@
    } else {
        decimal_digits(jobs as nat)
    }
}

/// The two lines that open a study.
pub fn study_lines(plan: &StudyPlan, config: &HpoWorkflowConfig) -> (result: (String, String))
    ensures
        result.0@ == "\n--- HPO: "@ + plan.name@ + " ("@ + plan.model_type.label() + ") ---"@,
        result.1@ == "  Trials: "@ + decimal_digits(config.n_trials as nat) + ", Jobs: "@
            + jobs_text(config.n_jobs) + ", Epochs/trial: "@ + decimal_digits(
            config.max_epochs as nat,
        ),
{
    let mut title = concat3("\n--- HPO: ", plan.name.as_str(), " (");
    title.append(plan.model_type.as_str());
    title.append(") ---");
    let trials = decimal(config.n_trials as u64);
    let jobs = if config.n_jobs == 0 {
        copy_of("auto")
    } else {
        decimal(config.n_jobs as u64)
    };
    let epochs = decimal(config.max_epochs as u64);
    let mut line = concat3("  Trials: ", trials.as_str(), ", Jobs: ");
    line.append(jobs.as_str());
    line.append(", Epochs/trial: ");
    line.append(epochs.as_str());
    (title, line)
}

/// What a trial ended with.
#[derive(Clone, Copy, Debug, PartialEq, Eq, Structural)]
pub struct CompletedTrial {
    pub trial_number: usize,
    pub successful: bool,
    pub feasible: bool,
    pub val_loss: Scalar,
    pub ok_at_1pct: Scalar,
    pub hidden_size: i64,
    pub param_count: usize,
    pub max_error: Scalar,
    pub lr: Scalar,
    pub training_time_secs: Scalar,
}

/// What an observer is told of a trial.
#[derive(Debug)]
pub struct HpoTrialEvent {
    pub trial_number: usize,
    pub total_trials: usize,
    pub model_type: String,
    pub status: String,
    pub val_loss: Scalar,
    pub ok_at_1pct: Scalar,
    pub hidden_size: i64,
    pub param_count: usize,
    pub max_error: Scalar,
    pub lr: Scalar,
    pub training_time_secs: Scalar,
    pub is_feasible: bool,
    pub params_json: String,
}

/// What an observer is told of a trial. `params_json` is what its parameters look
/// like as JSON, if they could be written.
pub fn trial_event(
    trial: &CompletedTrial,
    total_trials: usize,
    model_type: ModelType,
    params_json: Option<String>,
) -> (result: HpoTrialEvent)
    ensures
        result.trial_number == trial.trial_number,
        result.total_trials == total_trials,
        result.model_type@ == model_type.label(),
        result.status@ == if trial.successful {
            "completed"@
        } else {
            "failed"@
        },
        result.val_loss == trial.val_loss,
        result.ok_at_1pct == trial.ok_at_1pct,
        result.hidden_size == trial.hidden_size,
        result.param_count == trial.param_count,
        result.max_error == trial.max_error,
        result.lr == trial.lr,
        result.training_time_secs == trial.training_time_secs,
        result.is_feasible == trial.feasible,
        params_json matches Some(text) ==> result.params_json@ == text@,
        params_json is None ==> result.params_json@ == "{}"@,
{
    HpoTrialEvent {
        trial_number: trial.trial_number,
        total_trials,
        model_type: copy_of(model_type.as_str()),
        status: copy_of(trial_status(trial.successful)),
        val_loss: trial.val_loss,
        ok_at_1pct: trial.ok_at_1pct,
        hidden_size: trial.hidden_size,
        param_count: trial.param_count,
        max_error: trial.max_error,
        lr: trial.lr,
        training_time_secs: trial.training_time_secs,
        is_feasible: trial.feasible,
        params_json: match params_json {
            Some(text) => text,
            None => copy_of("{}"),
        },
    }
}

/// The line that counts the trials of a running study. It overwrites the one before.
pub fn trial_progress_line(completed: usize, total: usize) -> (result: String)
    ensures
        result@ == "\r  Trial "@ + decimal_digits(completed as nat) + "/"@ + decimal_digits(
            total as nat,
        ),
{
    let done = decimal(completed as u64);
    let all = decimal(total as u64);
    let mut line = concat3("\r  Trial ", done.as_str(), "/");
    line.append(all.as_str());
    line
}

/// The line that says why importance is estimated by rank correlation alone, for a
/// study that is too large for the analysis of variance.
pub fn skipped_fanova_line(trials: usize) -> (result: Option<String>)
    ensures
        result is Some <==> trials > FANOVA_TRIAL_CAP,
        result matches Some(line) ==> line@
            == "  Parameter importance (Spearman per objective — fANOVA skipped: "@
            + decimal_digits(trials as nat) + " trials > cap "@ + decimal_digits(
            FANOVA_TRIAL_CAP as nat,
        ) + ")"@,
{
    if !skips_fanova(trials) {
        return None;
    }
    let count = decimal(trials as u64);
    let cap = decimal(FANOVA_TRIAL_CAP as u64);
    let mut line = concat3(
        "  Parameter importance (Spearman per objective — fANOVA skipped: ",
        count.as_str(),
        " trials > cap ",
    );
    line.append(cap.as_str());
    line.append(")");
    Some(line)
}

/// The two lines that close a study: how many of its trials are feasible, with their
/// share in percent as text, and how many are on the front.
pub fn front_lines(trials: usize, feasible: usize, front: usize, percent: &str) -> (result: (
    String,
    String,
))
    ensures
        result.0@ == "  Feasible: "@ + decimal_digits(feasible as nat) + "/"@ + decimal_digits(
            trials as nat,
        ) + " ("@ + percent@ + "%)"@,
        result.1@ == "  Pareto front: "@ + decimal_digits(front as nat) + " configs"@,
{
    let count = decimal(feasible as u64);
    let all = decimal(trials as u64);
    let mut line = concat3("  Feasible: ", count.as_str(), "/");
    line.append(all.as_str());
    line.append(" (");
    line.append(percent);
    line.append("%)");
    let size = decimal(front as u64);
    (line, concat3("  Pareto front: ", size.as_str(), " configs"))
}

/// The line above the importance of parameters for an objective.
pub fn importance_title(importance: &ObjectiveImportance) -> (result: String)
    ensures
        result@ == "  Parameter importance ("@ + importance.method.label() + " — "@
            + importance.objective@ + "):"@,
{
    let mut title = concat3("  Parameter importance (", importance.method.as_str(), " — ");
    title.append(importance.objective.as_str());
    title.append("):");
    title
}

/// The share of interactions gets a line of its own.
pub open spec fn shows_interactions(importance: ObjectiveImportance) -> bool {
    importance.scores@.len() > 0 && importance.interactions is Some && (Scalar {
        bits: SHOWN_INTERACTIONS_BITS,
    }).lt(importance.interactions->0)
}

/// A score with its percent sign.
pub open spec fn score_row(name: Seq<char>, percent: Seq<char>) -> (Seq<char>, Seq<char>) {
    (name, percent + "%"@)
}

/// The table of the importance of parameters. `percents` are the scores in percent
/// as text, `interactions` is the share of interactions.
pub open spec fn importance_table(
    importance: ObjectiveImportance,
    percents: Seq<String>,
    interactions: Seq<char>,
) -> Seq<(Seq<char>, Seq<char>)> {
    if importance.scores@.len() == 0 {
        seq![("(no completed trials)"@, "-"@)]
    } else {
        let scores = Seq::new(
            importance.scores@.len(),
            |i: int| score_row(importance.scores@[i].0@, percents[i]@),
        );
        if shows_interactions(importance) {
            scores.push(score_row("(interactions)"@, interactions))
        } else {
            scores
        }
    }
}

/// The table of the importance of parameters.
pub fn importance_rows(
    importance: &ObjectiveImportance,
    percents: &Vec<String>,
    interactions: &str,
) -> (result: Vec<MetricRow>)
    requires
        percents@.len() == importance.scores@.len(),
    ensures
        row_views(result@) == importance_table(*importance, percents@, interactions@),
{
    let mut rows: Vec<MetricRow> = Vec::new();
    if importance.scores.len() == 0 {
        rows.push(
            MetricRow { label: copy_of("(no completed trials)"), value: copy_of("-") },
        );
        proof {
            assert(row_views(rows@) =~= importance_table(*importance, percents@, interactions@));
        }
        return rows;
    }
    let ghost scores = Seq::new(
        importance.scores@.len(),
        |i: int| score_row(importance.scores@[i].0@, percents@[i]@),
    );
    let mut i: usize = 0;
    while i < importance.scores.len()
        invariant
            i <= importance.scores@.len(),
            percents@.len() == importance.scores@.len(),
            scores == Seq::new(
                importance.scores@.len(),
                |k: int| score_row(importance.scores@[k].0@, percents@[k]@),
            ),
            row_views(rows@) == scores.take(i as int),
        decreases importance.scores@.len() - i,
    {
        rows.push(
            MetricRow {
                label: copy_of(importance.scores[i].0.as_str()),
                value: concat2(percents[i].as_str(), "%"),
            },
        );
        proof {
            assert(scores.take(i + 1) == scores.take(i as int).push(scores[i as int]));
            assert(row_views(rows@) =~= scores.take(i + 1));
        }
        i += 1;
    }
    let shown = match importance.interactions {
        Some(share) => Scalar::from_bits(SHOWN_INTERACTIONS_BITS).less_than(share),
        None => false,
    };
    if shown {
        rows.push(
            MetricRow {
                label: copy_of("(interactions)"),
                value: concat2(interactions, "%"),
            },
        );
    }
    proof {
        assert(scores.take(scores.len() as int) == scores);
        assert(row_views(rows@) =~= importance_table(*importance, percents@, interactions@));
    }
    rows
}

/// A configuration that no other one is better than in every respect.
#[derive(Clone, Copy, Debug, PartialEq, Eq, Structural)]
pub struct BestConfigEntry {
    pub trial: usize,
    pub ok_at_1pct: Scalar,
    pub hidden_size: i64,
    pub param_count: usize,
    pub max_error: Scalar,
    pub lr: Scalar,
}

/// What a study ends with. The importance of parameters is listed by objective.
#[derive(Debug)]
pub struct HpoSummaryOutput {
    pub study_name: String,
    pub model_type: String,
    pub n_trials: usize,
    pub feasible_trials: usize,
    pub pareto_front_size: usize,
    pub total_time_secs: Scalar,
    pub best_configs: Vec<BestConfigEntry>,
    /// The importance of parameters for the first objective.
    pub param_importance: Scores,
    pub param_importance_per_objective: Vec<(String, Scores)>,
    /// The share of interactions, for the objectives for which it is known.
    pub param_interactions_per_objective: Vec<(String, Scalar)>,
}

/// The entry of a trial.
pub open spec fn best_entry(trial: CompletedTrial) -> BestConfigEntry {
    BestConfigEntry {
        trial: trial.trial_number,
        ok_at_1pct: trial.ok_at_1pct,
        hidden_size: trial.hidden_size,
        param_count: trial.param_count,
        max_error: trial.max_error,
        lr: trial.lr,
    }
}

/// A score, with its name as a sequence of characters.
pub open spec fn score_views(scores: Scores) -> Seq<(Seq<char>, Scalar)> {
    scores@.map_values(|score: (String, Scalar)| (score.0@, score.1))
}

/// The scores for some objectives.
pub open spec fn objective_scores(importance: Seq<ObjectiveImportance>) -> Seq<
    (Seq<char>, Seq<(Seq<char>, Scalar)>),
> {
    importance.map_values(
        |entry: ObjectiveImportance| (entry.objective@, score_views(entry.scores)),
    )
}

/// A list of scores by objective.
pub open spec fn listed_scores(list: Seq<(String, Scores)>) -> Seq<
    (Seq<char>, Seq<(Seq<char>, Scalar)>),
> {
    list.map_values(|entry: (String, Scores)| (entry.0@, score_views(entry.1)))
}

/// The shares of interactions that are known.
pub open spec fn known_interactions(importance: Seq<ObjectiveImportance>) -> Seq<
    (Seq<char>, Scalar),
>
    decreases importance.len(),
{
    if importance.len() == 0 {
        Seq::<(Seq<char>, Scalar)>::empty()
    } else {
        let before = known_interactions(importance.drop_last());
        match importance.last().interactions {
            Some(share) => before.push((importance.last().objective@, share)),
            None => before,
        }
    }
}

fn copy_scores(scores: &Scores) -> (result: Scores)
    ensures
        score_views(result) == score_views(*scores),
{
    let mut result: Scores = Vec::new();
    let mut i: usize = 0;
    while i < scores.len()
        invariant
            i <= scores@.len(),
            score_views(result) == score_views(*scores).take(i as int),
        decreases scores@.len() - i,
    {
        let ghost before = score_views(result);
        let name = copy_of(scores[i].0.as_str());
        let score = scores[i].1;
        result.push((name, score));
        proof {
            assert(score_views(result) =~= before.push((name@, score)));
            assert(score_views(*scores).take(i + 1) =~= score_views(*scores).take(i as int).push(
                (scores@[i as int].0@, scores@[i as int].1),
            ));
        }
        i += 1;
    }
    proof {
        assert(score_views(*scores).take(scores@.len() as int) == score_views(*scores));
    }
    result
}

fn best_entries(front: &Vec<CompletedTrial>) -> (result: Vec<BestConfigEntry>)
    ensures
        result@ == front@.map_values(|trial: CompletedTrial| best_entry(trial)),
{
    let mut result: Vec<BestConfigEntry> = Vec::new();
    let mut i: usize = 0;
    while i < front.len()
        invariant
            i <= front@.len(),
            result@ == front@.take(i as int).map_values(
                |trial: CompletedTrial| best_entry(trial),
            ),
        decreases front@.len() - i,
    {
        let trial = front[i];
        result.push(
            BestConfigEntry {
                trial: trial.trial_number,
                ok_at_1pct: trial.ok_at_1pct,
                hidden_size: trial.hidden_size,
                param_count: trial.param_count,
                max_error: trial.max_error,
                lr: trial.lr,
            },
        );
        proof {
            assert(front@.take(i + 1) == front@.take(i as int).push(trial));
            assert(result@ =~= front@.take(i + 1).map_values(
                |trial: CompletedTrial| best_entry(trial),
            ));
        }
        i += 1;
    }
    proof {
        assert(front@.take(front@.len() as int) == front@);
    }
    result
}

/// The pairs of a list, with their names as sequences of characters.
pub open spec fn named_shares(list: Seq<(String, Scalar)>) -> Seq<(Seq<char>, Scalar)> {
    list.map_values(|entry: (String, Scalar)| (entry.0@, entry.1))
}

/// The objectives of a study, in order: the share of good predictions, the size of the
/// model, and the largest error.
pub open spec fn objectives() -> Seq<Seq<char>> {
    seq!["ok_at_1pct"@, "param_count"@, "max_error"@]
}

/// The objectives of a study, in order.
pub fn objective_names() -> (result: Vec<String>)
    ensures
        crate::text::views(result@) == objectives(),
{
    let mut names: Vec<String> = Vec::new();
    names.push(copy_of("ok_at_1pct"));
    names.push(copy_of("param_count"));
    names.push(copy_of("max_error"));
    assert(crate::text::views(names@) =~= objectives());
    names
}

/// There is an entry for each objective, in order.
pub open spec fn covers_objectives(importance: Seq<ObjectiveImportance>) -> bool {
    importance.map_values(|entry: ObjectiveImportance| entry.objective@) == objectives()
}

/// What a study ends with. `front` are the trials that no other one is better than
/// in every respect, and `importance` has an entry per objective. The scores of the
/// first objective are listed by themselves as well.
pub fn summarize_study(
    plan: &StudyPlan,
    trials: usize,
    feasible: usize,
    front: &Vec<CompletedTrial>,
    importance: &Vec<ObjectiveImportance>,
    total_time_secs: Scalar,
) -> (result: HpoSummaryOutput)
    requires
        covers_objectives(importance@),
    ensures
        result.study_name@ == plan.name@,
        result.model_type@ == plan.model_type.label(),
        result.n_trials == trials,
        result.feasible_trials == feasible,
        result.pareto_front_size == front@.len(),
        result.total_time_secs == total_time_secs,
        result.best_configs@ == front@.map_values(|trial: CompletedTrial| best_entry(trial)),
        score_views(result.param_importance) == score_views(importance@[0].scores),
        listed_scores(result.param_importance_per_objective@) == objective_scores(importance@),
        listed_scores(result.param_importance_per_objective@).map_values(
            |entry: (Seq<char>, Seq<(Seq<char>, Scalar)>)| entry.0,
        ) == objectives(),
        named_shares(result.param_interactions_per_objective@) == known_interactions(importance@),
{
    let mut listed: Vec<(String, Scores)> = Vec::new();
    let mut shares: Vec<(String, Scalar)> = Vec::new();
    let mut i: usize = 0;
    proof {
        assert(importance@.take(0) == Seq::<ObjectiveImportance>::empty());
        assert(named_shares(shares@) =~= known_interactions(importance@.take(0)));
    }
    while i < importance.len()
        invariant
            i <= importance@.len(),
            listed_scores(listed@) == objective_scores(importance@.take(i as int)),
            named_shares(shares@) == known_interactions(importance@.take(i as int)),
        decreases importance@.len() - i,
    {
        let entry = &importance[i];
        let ghost listed_before = listed_scores(listed@);
        let ghost shares_before = named_shares(shares@);
        let scores = copy_scores(&entry.scores);
        listed.push((copy_of(entry.objective.as_str()), scores));
        if let Some(share) = entry.interactions {
            shares.push((copy_of(entry.objective.as_str()), share));
        }
        proof {
            assert(importance@.take(i + 1) == importance@.take(i as int).push(*entry));
            assert(importance@.take(i + 1).drop_last() == importance@.take(i as int));
            assert(listed_scores(listed@) =~= listed_before.push(
                (entry.objective@, score_views(entry.scores)),
            ));
            assert(objective_scores(importance@.take(i + 1)) =~= objective_scores(
                importance@.take(i as int),
            ).push((entry.objective@, score_views(entry.scores))));
            assert(named_shares(shares@) =~= known_interactions(importance@.take(i + 1)));
        }
        i += 1;
    }
    proof {
        assert(importance@.take(importance@.len() as int) == importance@);
        assert(importance@.map_values(|entry: ObjectiveImportance| entry.objective@).len()
            == importance@.len());
        assert(objectives().len() == 3);
    }
    let param_importance = if importance.len() > 0 {
        copy_scores(&importance[0].scores)
    } else {
        Vec::new()
    };
    HpoSummaryOutput {
        study_name: copy_of(plan.name.as_str()),
        model_type: copy_of(plan.model_type.as_str()),
        n_trials: trials,
        feasible_trials: feasible,
        pareto_front_size: front.len(),
        total_time_secs,
        best_configs: best_entries(front),
        param_importance,
        param_importance_per_objective: listed,
        param_interactions_per_objective: shares,
    }
}

/// A run of studies needs samples in each of the three splits.
pub proof fn studies_need_every_split(config: HpoWorkflowConfig)
    ensures
        has_all_splits(config) ==> config.train_samples@.len() > 0 && config.val_samples@.len() > 0
            && config.test_samples@.len() > 0,
        config.train_samples@.len() > 0 && config.val_samples@.len() > 0
            && config.test_samples@.len() > 0 ==> has_all_splits(config),
{
}

/// A summary lists each trial of the front by its number, with its own figures.
pub proof fn fronts_are_listed_trial_by_trial(trial: CompletedTrial)
    ensures
        best_entry(trial).trial == trial.trial_number,
        best_entry(trial).ok_at_1pct == trial.ok_at_1pct,
        best_entry(trial).hidden_size == trial.hidden_size,
        best_entry(trial).param_count == trial.param_count,
        best_entry(trial).max_error == trial.max_error,
        best_entry(trial).lr == trial.lr,
{
}

/// The objectives are the share of good predictions, the number of parameters and the
/// largest error, in this order, and an importance is listed for each.
pub proof fn importance_is_listed_by_objective(importance: Seq<ObjectiveImportance>, i: int)
    requires
        covers_objectives(importance),
        0 <= i < importance.len(),
    ensures
        importance.len() == 3,
        importance[0].objective@ == "ok_at_1pct"@,
        importance[1].objective@ == "param_count"@,
        importance[2].objective@ == "max_error"@,
        objective_scores(importance).len() == 3,
        objective_scores(importance)[i].0 == importance[i].objective@,
        objective_scores(importance)[i].1 == score_views(importance[i].scores),
{
    let named = importance.map_values(|entry: ObjectiveImportance| entry.objective@);
    assert(named.len() == importance.len());
    assert(named[0] == importance[0].objective@);
    assert(named[1] == importance[1].objective@);
    assert(named[2] == importance[2].objective@);
}

/// The share of interactions of an objective is listed exactly where it is known.
pub proof fn interactions_are_listed_where_known(
    importance: Seq<ObjectiveImportance>,
    name: Seq<char>,
    share: Scalar,
)
    ensures
        known_interactions(importance).contains((name, share)) <==> exists|i: int|
            0 <= i < importance.len() && (#[trigger] importance[i]).objective@ == name
                && importance[i].interactions == Some(share),
        (forall|i: int|
            0 <= i < importance.len() ==> (#[trigger] importance[i]).interactions is Some)
            ==> known_interactions(importance).len() == importance.len(),
    decreases importance.len(),
{
    if importance.len() > 0 {
        let head = importance.drop_last();
        let last = importance.len() - 1;
        interactions_are_listed_where_known(head, name, share);
        let before = known_interactions(head);
        let all = known_interactions(importance);
        assert(importance[last] == importance.last());
        if all.contains((name, share)) {
            let k = choose|k: int| 0 <= k < all.len() && all[k] == (name, share);
            if k < before.len() {
                assert(before[k] == (name, share));
                assert(before.contains((name, share)));
                let i = choose|i: int|
                    0 <= i < head.len() && (#[trigger] head[i]).objective@ == name
                        && head[i].interactions == Some(share);
                assert(importance[i].objective@ == name);
            } else {
                assert(importance[last].objective@ == name);
            }
        }
        if exists|i: int|
            0 <= i < importance.len() && (#[trigger] importance[i]).objective@ == name
                && importance[i].interactions == Some(share) {
            let i = choose|i: int|
                0 <= i < importance.len() && (#[trigger] importance[i]).objective@ == name
                    && importance[i].interactions == Some(share);
            if i < last {
                assert(head[i].objective@ == name);
                assert(before.contains((name, share)));
                let k = choose|k: int| 0 <= k < before.len() && before[k] == (name, share);
                assert(all[k] == (name, share));
            } else {
                assert(all[all.len() - 1] == (name, share));
            }
        }
        if forall|i: int|
            0 <= i < importance.len() ==> (#[trigger] importance[i]).interactions is Some {
            assert forall|i: int| 0 <= i < head.len() implies (
            #[trigger] head[i]).interactions is Some by {
                assert(importance[i].interactions is Some);
            }
        }
    }
}

/// The table of an importance has a row for each parameter, with its own percentage, in
/// the order of the scores; interactions follow in a row of their own where they are worth
/// one, and a study without a score has one row that says so.
pub proof fn importance_tables_have_a_row_per_parameter(
    importance: ObjectiveImportance,
    percents: Seq<String>,
    interactions: Seq<char>,
    i: int,
)
    requires
        percents.len() == importance.scores@.len(),
    ensures
        ({
            let table = importance_table(importance, percents, interactions);
            let n = importance.scores@.len() as int;
            &&& n == 0 ==> table.len() == 1 && table[0].0 == "(no completed trials)"@
            &&& 0 <= i < n ==> table[i].0 == importance.scores@[i].0@ && table[i].1
                == percents[i]@ + "%"@
            &&& n > 0 && shows_interactions(importance) ==> table.len() == n + 1 && table[n].0
                == "(interactions)"@ && table[n].1 == interactions + "%"@
            &&& n > 0 && !shows_interactions(importance) ==> table.len() == n
            &&& n > 0 ==> (shows_interactions(importance) <==> importance.interactions is Some
                && (Scalar { bits: 0x3f1a_36e2_eb1c_432d }).lt(importance.interactions->0))
        }),
{
}

} // verus!

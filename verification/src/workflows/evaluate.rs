//! How a trained model, or the closed-form inversion, is evaluated.

use super::config::{
    described, CheckpointSource, ComplexNorm, ModelConfig, StackedInferenceConfig,
};
use super::data_prep::{scaler_source, source_of_scalers, ScalerSource};
use super::evaluation::{
    find_threshold, generate_evaluation_plots, EvaluationCharts, NEARNESS_BITS,
};
use crate::base::error::{msg_error, CoreError};
use crate::base::metrics::{classify_multi_threshold, ClassificationResult, ComplexR2Scores};
use crate::base::s_params::S11S21;
use crate::data::complex_tensor::{flipped_values, negated_values};
use crate::data::generation::{make_samples, samples_at, PermittivitySample};
use crate::scalar::Scalar;
use crate::text::{concat2, concat3, copy_of, decimal, decimal_digits};
use vstd::prelude::*;
use vstd::string::StringExecFns;

verus! {

/// What the name of a normalization tensor begins with.
pub open spec fn norm_prefix() -> Seq<char> {
    "model.norm."@
}

/// Some of the names belong to a normalization.
pub open spec fn names_norm(names: Seq<String>) -> bool {
    exists|i: int| 0 <= i < names.len() && norm_prefix().is_prefix_of((#[trigger] names[i])@)
}

fn begins_with(text: &str, prefix: &str) -> (result: bool)
    ensures
        result == prefix@.is_prefix_of(text@),
{
    let n: usize = prefix.unicode_len();
    if text.unicode_len() < n {
        return false;
    }
    let mut i: usize = 0;
    while i < n
        invariant
            i <= n,
            n == prefix@.len(),
            n <= text@.len(),
            forall|k: int| 0 <= k < i ==> #[trigger] text@[k] == prefix@[k],
        decreases n - i,
    {
        if text.get_char(i) != prefix.get_char(i) {
            return false;
        }
        i += 1;
    }
    proof {
        assert(prefix@ =~= text@.subrange(0, prefix@.len() as int));
    }
    true
}

/// Whether some of the names belong to a normalization.
pub fn has_norm_tensors(names: &Vec<String>) -> (result: bool)
    ensures
        result == names_norm(names@),
{
    let mut i: usize = 0;
    while i < names.len()
        invariant
            i <= names@.len(),
            forall|k: int|
                0 <= k < i ==> !norm_prefix().is_prefix_of((#[trigger] names@[k])@),
        decreases names@.len() - i,
    {
        if begins_with(names[i].as_str(), "model.norm.") {
            return true;
        }
        i += 1;
    }
    false
}

/// The model that weights with these tensors belong to. A complex model has a
/// normalization exactly where the weights do, whatever its settings say; where the
/// names are not known the settings stand.
pub open spec fn detected_model(model: ModelConfig, names: Option<Seq<String>>) -> ModelConfig {
    match (model, names) {
        (
            ModelConfig::Complex { hidden_size, complex_activation, dropout, .. },
            Some(list),
        ) => ModelConfig::Complex {
            hidden_size,
            complex_activation,
            dropout,
            norm: if names_norm(list) {
                ComplexNorm::LayerNorm
            } else {
                ComplexNorm::Absent
            },
        },
        _ => model,
    }
}

/// The names of a list that may be missing.
pub open spec fn name_seq(names: Option<&Vec<String>>) -> Option<Seq<String>> {
    match names {
        Some(list) => Some(list@),
        None => None,
    }
}

/// The model that weights with these tensors belong to.
pub fn detect_norm(model: ModelConfig, names: Option<&Vec<String>>) -> (result: ModelConfig)
    ensures
        result == detected_model(model, name_seq(names)),
{
    match model {
        ModelConfig::Complex { hidden_size, complex_activation, dropout, norm } => {
            let norm = match names {
                Some(list) => if has_norm_tensors(list) {
                    ComplexNorm::LayerNorm
                } else {
                    ComplexNorm::Absent
                },
                None => norm,
            };
            ModelConfig::Complex { hidden_size, complex_activation, dropout, norm }
        },
        ModelConfig::Real { hidden_size, activation, dropout, norm } => ModelConfig::Real {
            hidden_size,
            activation,
            dropout,
            norm,
        },
    }
}

/// Looking at the weights changes nothing of a model but its normalization: the
/// family, the width and so the description stay.
pub proof fn detection_keeps_the_architecture(model: ModelConfig, names: Option<Seq<String>>)
    ensures
        detected_model(model, names).family() == model.family(),
        detected_model(model, names).width() == model.width(),
        model is Real ==> detected_model(model, names) == model,
        detected_model(detected_model(model, names), names) == detected_model(model, names),
{
}

/// An evaluation.
#[derive(Debug)]
pub struct EvaluateConfig {
    pub model: CheckpointSource,
    pub model_config: ModelConfig,
    pub parameter_count: usize,
    pub test_samples: Vec<PermittivitySample>,
    /// The samples that scalers are fitted on; without any the test samples are.
    pub scaler_samples: Vec<PermittivitySample>,
    pub thresholds: (Scalar, Scalar),
    pub generate_plots: bool,
    pub quiet: bool,
    pub stack: StackedInferenceConfig,
}

/// An evaluation as it is carried out.
#[derive(Debug)]
pub struct EvaluationPlan {
    pub scalers: ScalerSource,
    /// The stages of the stacked pipeline are replayed.
    pub stacked: bool,
    /// How many models predict.
    pub members: usize,
    pub refine_steps: usize,
    /// What is told at the start.
    pub lines: Vec<String>,
    /// A line of warning.
    pub warning: Option<String>,
    /// A line on the stages.
    pub stack_line: Option<String>,
}

/// What is told at the start of an evaluation.
pub open spec fn opening_lines(config: EvaluateConfig, model: ModelConfig) -> Seq<Seq<char>> {
    seq![
        "Model: "@ + described(model.family(), model.width()) + " ("@ + decimal_digits(
            config.parameter_count as nat,
        ) + " params)"@,
        "Test samples: "@ + decimal_digits(config.test_samples@.len()),
    ]
}

/// The line on the stages of the stacked pipeline.
pub open spec fn stack_text(members: nat, refine_steps: usize) -> Seq<char> {
    "stacked pipeline active: "@ + decimal_digits(members) + " members, "@ + decimal_digits(
        refine_steps as nat,
    ) + " refine steps"@
}

/// How an evaluation is carried out. `cached` tells whether scalers were fitted
/// before. The warning stands whenever there are no training samples, also where
/// nothing is fitted.
pub fn plan_evaluation(config: &EvaluateConfig, model: &ModelConfig, cached: bool) -> (result:
    EvaluationPlan)
    requires
        config.stack.extra_members@.len() < usize::MAX,
    ensures
        result.scalers == source_of_scalers(cached, config.scaler_samples@.len()),
        result.stacked == !config.stack.passes_through(),
        result.members == 1 + config.stack.extra_members@.len(),
        result.refine_steps == config.stack.refine_steps,
        crate::text::views(result.lines@) == opening_lines(*config, *model),
        result.warning is Some <==> config.scaler_samples@.len() == 0,
        result.warning matches Some(text) ==> text@
            == "no training data for scaler fitting, using test data."@,
        result.stack_line is Some <==> result.stacked,
        result.stack_line matches Some(text) ==> text@ == stack_text(
            (1 + config.stack.extra_members@.len()) as nat,
            config.stack.refine_steps,
        ),
{
    let arch = model.arch_description();
    let parameters = decimal(config.parameter_count as u64);
    let mut first = concat3("Model: ", arch.as_str(), " (");
    first.append(parameters.as_str());
    first.append(" params)");
    let samples = decimal(config.test_samples.len() as u64);
    let second = concat2("Test samples: ", samples.as_str());
    let mut lines: Vec<String> = Vec::new();
    lines.push(first);
    lines.push(second);
    proof {
        assert(crate::text::views(lines@) =~= opening_lines(*config, *model));
    }
    let members: usize = 1 + config.stack.extra_members.len();
    let stacked = !config.stack.is_passthrough();
    let stack_line = if stacked {
        let count = decimal(members as u64);
        let steps = decimal(config.stack.refine_steps as u64);
        let mut text = concat3("stacked pipeline active: ", count.as_str(), " members, ");
        text.append(steps.as_str());
        text.append(" refine steps");
        Some(text)
    } else {
        None
    };
    let warning = if config.scaler_samples.len() == 0 {
        Some(copy_of("no training data for scaler fitting, using test data."))
    } else {
        None
    };
    EvaluationPlan {
        scalers: scaler_source(cached, config.scaler_samples.len()),
        stacked,
        members,
        refine_steps: config.stack.refine_steps,
        lines,
        warning,
        stack_line,
    }
}

/// Where weights come from, in words.
pub open spec fn source_text(source: CheckpointSource) -> Seq<char> {
    match source {
        CheckpointSource::Path(path) => path@,
        CheckpointSource::Bytes(bytes) => "<db blob, "@ + decimal_digits(bytes@.len())
            + " bytes>"@,
    }
}

/// Where weights come from, in words.
pub fn describe_source(source: &CheckpointSource) -> (result: String)
    ensures
        result@ == source_text(*source),
{
    match source {
        CheckpointSource::Path(path) => copy_of(path.as_str()),
        CheckpointSource::Bytes(bytes) => {
            let size = decimal(bytes.len() as u64);
            concat3("<db blob, ", size.as_str(), " bytes>")
        },
    }
}

/// Who speaks in the log of an evaluation. `file_name` is the last part of the
/// path, if it has one.
pub fn evaluation_context(source: &CheckpointSource, file_name: Option<&str>) -> (result: String)
    ensures
        source matches CheckpointSource::Bytes(bytes) ==> result@ == "eval:blob-"@
            + decimal_digits(bytes@.len()) + "b"@,
        source matches CheckpointSource::Path(path) ==> result@ == "eval:"@ + match file_name {
            Some(name) => name@,
            None => path@,
        },
{
    match source {
        CheckpointSource::Path(path) => match file_name {
            Some(name) => concat2("eval:", name),
            None => concat2("eval:", path.as_str()),
        },
        CheckpointSource::Bytes(bytes) => {
            let size = decimal(bytes.len() as u64);
            concat3("eval:blob-", size.as_str(), "b")
        },
    }
}

/// A threshold with how many samples are within it. The share in percent is
/// computed from the two counts.
#[derive(Clone, Copy, Debug, PartialEq, Eq, Structural)]
pub struct ThresholdSummary {
    pub threshold: Scalar,
    pub ok_count: usize,
    pub total: usize,
}

/// Numbers of an evaluation that come out of arithmetic on its errors.
#[derive(Clone, Copy, Debug, PartialEq, Eq, Structural)]
pub struct ErrorFigures {
    pub mean_error: Scalar,
    pub max_error: Scalar,
    pub min_error: Scalar,
    pub std_error: Scalar,
}

/// What an evaluation reports.
#[derive(Clone, Copy, Debug, PartialEq, Eq, Structural)]
pub struct EvaluateMetrics {
    pub ok_at_1pct: Scalar,
    pub ok_at_10pct: Scalar,
    pub mean_error: Scalar,
    pub max_error: Scalar,
    pub min_error: Scalar,
    pub std_error: Scalar,
    pub r2_real: Scalar,
    pub r2_imag: Scalar,
}

/// What an evaluation reports, and on what.
#[derive(Debug)]
pub struct EvaluateOutput {
    pub model_path: String,
    pub test_samples: usize,
    pub metrics: EvaluateMetrics,
    pub thresholds: Vec<Scalar>,
}

/// What an evaluation leaves behind.
#[derive(Debug)]
pub struct EvaluateRunResult {
    pub output: EvaluateOutput,
    pub classifications: Vec<ThresholdSummary>,
    /// The maps, where they were asked for.
    pub charts: Option<EvaluationCharts>,
}

/// The classifications of an evaluation by its two thresholds.
pub fn classify_evaluation(errors: &[Scalar], thresholds: (Scalar, Scalar)) -> (result: Vec<
    ClassificationResult,
>)
    ensures
        result@.len() == 2,
        result@[0].classifies(errors@, thresholds.0),
        result@[1].classifies(errors@, thresholds.1),
{
    let mut list: Vec<Scalar> = Vec::new();
    list.push(thresholds.0);
    list.push(thresholds.1);
    classify_multi_threshold(errors, list.as_slice())
}

fn summarize_classifications(classifications: &Vec<ClassificationResult>) -> (result: Vec<
    ThresholdSummary,
>)
    ensures
        result@.len() == classifications@.len(),
        forall|c: int|
            0 <= c < result@.len() ==> {
                &&& (#[trigger] result@[c]).threshold == classifications@[c].threshold
                &&& result@[c].ok_count == classifications@[c].ok_count
                &&& result@[c].total == classifications@[c].ok_mask@.len()
            },
{
    let mut result: Vec<ThresholdSummary> = Vec::new();
    let mut c: usize = 0;
    while c < classifications.len()
        invariant
            c <= classifications@.len(),
            result@.len() == c,
            forall|k: int|
                0 <= k < c ==> {
                    &&& (#[trigger] result@[k]).threshold == classifications@[k].threshold
                    &&& result@[k].ok_count == classifications@[k].ok_count
                    &&& result@[k].total == classifications@[k].ok_mask@.len()
                },
        decreases classifications@.len() - c,
    {
        let classification = &classifications[c];
        result.push(
            ThresholdSummary {
                threshold: classification.threshold,
                ok_count: classification.ok_count,
                total: classification.ok_mask.len(),
            },
        );
        c += 1;
    }
    result
}

/// The share of samples within a standing threshold: that of the classification
/// which is near it, and zero where none is.
pub open spec fn percent_near(distances: Seq<Scalar>, percents: Seq<Scalar>) -> Scalar
    decreases distances.len(),
{
    if distances.len() == 0 {
        Scalar { bits: 0 }
    } else if distances[0].lt(Scalar { bits: NEARNESS_BITS }) {
        percents[0]
    } else {
        percent_near(distances.skip(1), percents.skip(1))
    }
}

proof fn lemma_percent_near(distances: Seq<Scalar>, percents: Seq<Scalar>, i: int)
    requires
        distances.len() == percents.len(),
        0 <= i <= distances.len(),
        forall|k: int|
            0 <= k < i ==> !(#[trigger] distances[k]).lt(Scalar { bits: NEARNESS_BITS }),
        i < distances.len() ==> distances[i].lt(Scalar { bits: NEARNESS_BITS }),
    ensures
        percent_near(distances, percents) == if i < distances.len() {
            percents[i]
        } else {
            Scalar { bits: 0 }
        },
    decreases distances.len(),
{
    if i > 0 {
        let d = distances.skip(1);
        let p = percents.skip(1);
        assert forall|k: int| 0 <= k < i - 1 implies !(#[trigger] d[k]).lt(
            Scalar { bits: NEARNESS_BITS },
        ) by {
            assert(!distances[k + 1].lt(Scalar { bits: NEARNESS_BITS }));
        }
        assert(!distances[0].lt(Scalar { bits: NEARNESS_BITS }));
        lemma_percent_near(d, p, i - 1);
    }
}

/// The share of samples within a standing threshold. `distances` are how far each
/// classification's threshold is from it, `percents` the shares.
pub fn find_threshold_percent(distances: &Vec<Scalar>, percents: &Vec<Scalar>) -> (result: Scalar)
    requires
        distances@.len() == percents@.len(),
    ensures
        result == percent_near(distances@, percents@),
{
    match find_threshold(distances.as_slice()) {
        Some(i) => {
            proof {
                lemma_percent_near(distances@, percents@, i as int);
            }
            percents[i]
        },
        None => {
            proof {
                lemma_percent_near(distances@, percents@, distances@.len() as int);
            }
            Scalar::zero()
        },
    }
}

/// How far the thresholds of the classifications are from the two standing ones, one
/// and ten percent, and the share of samples within each.
#[derive(Debug)]
pub struct ThresholdShares {
    pub from_one: Vec<Scalar>,
    pub from_ten: Vec<Scalar>,
    pub percents: Vec<Scalar>,
}

impl ThresholdShares {
    /// There is one of each per classification.
    pub open spec fn cover(self, classifications: int) -> bool {
        &&& self.from_one@.len() == classifications
        &&& self.from_ten@.len() == classifications
        &&& self.percents@.len() == classifications
    }
}

/// Puts together what an evaluation leaves behind: the shares within one and within ten
/// percent are those of the classifications near these. The other figures were computed
/// from the errors.
pub fn evaluation_result(
    model_path: String,
    errors: &Vec<Scalar>,
    classifications: &Vec<ClassificationResult>,
    shares: &ThresholdShares,
    figures: &ErrorFigures,
    r2_scores: &ComplexR2Scores,
    thresholds: (Scalar, Scalar),
    test_samples: &Vec<PermittivitySample>,
    generate_plots: bool,
) -> (result: EvaluateRunResult)
    requires
        errors@.len() == test_samples@.len(),
        shares.cover(classifications@.len() as int),
        forall|c: int|
            0 <= c < classifications@.len() ==> (#[trigger] classifications@[c]).ok_mask@.len()
                == test_samples@.len(),
    ensures
        result.output.model_path == model_path,
        result.output.test_samples == errors@.len(),
        result.output.thresholds@ == seq![thresholds.0, thresholds.1],
        result.output.metrics.ok_at_1pct == percent_near(shares.from_one@, shares.percents@),
        result.output.metrics.ok_at_10pct == percent_near(shares.from_ten@, shares.percents@),
        result.output.metrics.mean_error == figures.mean_error,
        result.output.metrics.max_error == figures.max_error,
        result.output.metrics.min_error == figures.min_error,
        result.output.metrics.std_error == figures.std_error,
        result.output.metrics.r2_real == r2_scores.r2_real,
        result.output.metrics.r2_imag == r2_scores.r2_imag,
        result.classifications@.len() == classifications@.len(),
        forall|c: int|
            0 <= c < result.classifications@.len() ==> {
                &&& (#[trigger] result.classifications@[c]).threshold
                    == classifications@[c].threshold
                &&& result.classifications@[c].ok_count == classifications@[c].ok_count
                &&& result.classifications@[c].total == classifications@[c].ok_mask@.len()
            },
        result.charts is Some <==> generate_plots,
        result.charts matches Some(charts) ==> charts.are_charts_of(
            test_samples@,
            errors@,
            classifications@,
        ),
{
    let mut listed: Vec<Scalar> = Vec::new();
    listed.push(thresholds.0);
    listed.push(thresholds.1);
    proof {
        assert(listed@ =~= seq![thresholds.0, thresholds.1]);
    }
    let charts = if generate_plots {
        Some(
            generate_evaluation_plots(errors.as_slice(), classifications, test_samples.as_slice()),
        )
    } else {
        None
    };
    EvaluateRunResult {
        output: EvaluateOutput {
            model_path,
            test_samples: errors.len(),
            metrics: EvaluateMetrics {
                ok_at_1pct: find_threshold_percent(&shares.from_one, &shares.percents),
                ok_at_10pct: find_threshold_percent(&shares.from_ten, &shares.percents),
                mean_error: figures.mean_error,
                max_error: figures.max_error,
                min_error: figures.min_error,
                std_error: figures.std_error,
                r2_real: r2_scores.r2_real,
                r2_imag: r2_scores.r2_imag,
            },
            thresholds: listed,
        },
        classifications: summarize_classifications(classifications),
        charts,
    }
}

/// How the values of an axis come about.
#[derive(Clone, Copy, Debug, PartialEq, Eq, Structural)]
pub enum AxisPlan {
    /// No value.
    Empty,
    /// The lower bound alone.
    Single(Scalar),
    /// So many values at equal distances, from the lower bound to the upper one.
    Spaced(Scalar, Scalar, usize),
}

/// How the values of an axis come about.
pub open spec fn axis_plan(range: (Scalar, Scalar), n: usize) -> AxisPlan {
    if n == 0 {
        AxisPlan::Empty
    } else if n == 1 {
        AxisPlan::Single(range.0)
    } else {
        AxisPlan::Spaced(range.0, range.1, n)
    }
}

/// How the values of an axis come about.
pub fn linspace_plan(range: (Scalar, Scalar), n: usize) -> (result: AxisPlan)
    ensures
        result == axis_plan(range, n),
{
    if n == 0 {
        AxisPlan::Empty
    } else if n == 1 {
        AxisPlan::Single(range.0)
    } else {
        AxisPlan::Spaced(range.0, range.1, n)
    }
}

/// Refuses a grid without points.
pub fn check_nrw_grid(n_eps_prime: usize, n_eps_double_prime: usize) -> (result: Result<
    (),
    CoreError,
>)
    ensures
        result is Ok <==> n_eps_prime > 0 && n_eps_double_prime > 0,
        result matches Err(e) ==> e.says("grid dimensions must be positive"@),
{
    if n_eps_prime == 0 || n_eps_double_prime == 0 {
        return Err(msg_error("grid dimensions must be positive"));
    }
    Ok(())
}

/// A round trip of the closed-form inversion over a grid of permittivities.
#[derive(Clone, Copy, Debug, PartialEq, Eq)]
pub struct NrwEvaluateConfig {
    /// The thickness of the sample in metres.
    pub d: Scalar,
    /// The width of the waveguide in metres.
    pub a: Scalar,
    /// The frequency in hertz.
    pub frequency: Scalar,
    pub eps_prime_range: (Scalar, Scalar),
    pub eps_double_prime_range: (Scalar, Scalar),
    pub n_eps_prime: usize,
    pub n_eps_double_prime: usize,
    pub thresholds: (Scalar, Scalar),
    pub generate_plots: bool,
    pub quiet: bool,
}

/// The two axes of a round trip. `complaint` is what is wrong with the waveguide.
pub fn plan_nrw_evaluation(config: &NrwEvaluateConfig, complaint: Option<&str>) -> (result: Result<
    (AxisPlan, AxisPlan),
    CoreError,
>)
    ensures
        result is Ok <==> config.n_eps_prime > 0 && config.n_eps_double_prime > 0 && complaint
            is None,
        result matches Ok(axes) ==> {
            &&& axes.0 == axis_plan(config.eps_prime_range, config.n_eps_prime)
            &&& axes.1 == axis_plan(config.eps_double_prime_range, config.n_eps_double_prime)
        },
        result matches Err(e) ==> e.says(
            if config.n_eps_prime == 0 || config.n_eps_double_prime == 0 {
                "grid dimensions must be positive"@
            } else {
                complaint->0@
            },
        ),
{
    if let Err(e) = check_nrw_grid(config.n_eps_prime, config.n_eps_double_prime) {
        return Err(e);
    }
    if let Some(text) = complaint {
        return Err(msg_error(text));
    }
    Ok(
        (
            linspace_plan(config.eps_prime_range, config.n_eps_prime),
            linspace_plan(config.eps_double_prime_range, config.n_eps_double_prime),
        ),
    )
}

/// The four lists of scattering parameters, and the samples, of a round trip over a
/// grid.
#[derive(Debug)]
pub struct NrwGrid {
    pub samples: Vec<PermittivitySample>,
    pub true_real: Vec<Scalar>,
    pub true_imag: Vec<Scalar>,
}

/// The samples of a round trip over a grid, in the order of the points: the second
/// axis runs faster. `s_params` are the scattering parameters of the points.
pub fn nrw_grid(points: &Vec<(Scalar, Scalar)>, s_params: &Vec<S11S21>) -> (result: NrwGrid)
    requires
        points@.len() == s_params@.len(),
    ensures
        result.samples@ == samples_at(points@, s_params@, false),
        result.true_real@ == points@.map_values(|p: (Scalar, Scalar)| p.0),
        result.true_imag@ == points@.map_values(|p: (Scalar, Scalar)| p.1),
{
    let samples = make_samples(points, s_params, false);
    let mut true_real: Vec<Scalar> = Vec::new();
    let mut true_imag: Vec<Scalar> = Vec::new();
    let mut i: usize = 0;
    while i < points.len()
        invariant
            i <= points@.len(),
            true_real@ == points@.take(i as int).map_values(|p: (Scalar, Scalar)| p.0),
            true_imag@ == points@.take(i as int).map_values(|p: (Scalar, Scalar)| p.1),
        decreases points@.len() - i,
    {
        let point = points[i];
        proof {
            assert(points@.take(i + 1) == points@.take(i as int).push(point));
        }
        true_real.push(point.0);
        true_imag.push(point.1);
        i += 1;
    }
    proof {
        assert(points@.take(points@.len() as int) == points@);
    }
    NrwGrid { samples, true_real, true_imag }
}

/// The set-up of a round trip as text: the frequency in gigahertz, the thickness of the
/// sample and the width of the waveguide in millimetres.
#[derive(Debug)]
pub struct NrwTexts {
    pub frequency: String,
    pub thickness: String,
    pub width: String,
}

/// The size of a grid in words.
pub open spec fn grid_text(n_eps_prime: usize, n_eps_double_prime: usize) -> Seq<char> {
    "grid "@ + decimal_digits(n_eps_prime as nat) + "×"@ + decimal_digits(
        n_eps_double_prime as nat,
    )
}

/// What stands in place of a model's path where there is no model.
pub fn nrw_label(texts: &NrwTexts, n_eps_prime: usize, n_eps_double_prime: usize) -> (result:
    String)
    ensures
        result@ == "NRW analytical (no model) — f = "@ + texts.frequency@ + " GHz, d = "@
            + texts.thickness@ + " mm, a = "@ + texts.width@ + " mm, "@ + grid_text(
            n_eps_prime,
            n_eps_double_prime,
        ),
{
    let rows = decimal(n_eps_prime as u64);
    let columns = decimal(n_eps_double_prime as u64);
    let mut grid = concat3("grid ", rows.as_str(), "×");
    grid.append(columns.as_str());
    let mut label = concat3(
        "NRW analytical (no model) — f = ",
        texts.frequency.as_str(),
        " GHz, d = ",
    );
    label.append(texts.thickness.as_str());
    label.append(" mm, a = ");
    label.append(texts.width.as_str());
    label.append(" mm, ");
    label.append(grid.as_str());
    label
}

/// The line that reports a round trip, with the two shares of good predictions in
/// percent as text. A quiet run has none.
pub fn nrw_line(
    texts: &NrwTexts,
    n_eps_prime: usize,
    n_eps_double_prime: usize,
    ok_at_1: &str,
    ok_at_10: &str,
    quiet: bool,
) -> (result: Option<String>)
    ensures
        result is Some <==> !quiet,
        result matches Some(line) ==> line@ == "NRW analytical round-trip: f="@ + texts.frequency@
            + " GHz, d="@ + texts.thickness@ + " mm, a="@ + texts.width@ + " mm, "@ + grid_text(
            n_eps_prime,
            n_eps_double_prime,
        ) + ", OK@1%="@ + ok_at_1@ + "%, OK@10%="@ + ok_at_10@ + "%"@,
{
    if quiet {
        return None;
    }
    let rows = decimal(n_eps_prime as u64);
    let columns = decimal(n_eps_double_prime as u64);
    let mut grid = concat3("grid ", rows.as_str(), "×");
    grid.append(columns.as_str());
    let mut line = concat3("NRW analytical round-trip: f=", texts.frequency.as_str(), " GHz, d=");
    line.append(texts.thickness.as_str());
    line.append(" mm, a=");
    line.append(texts.width.as_str());
    line.append(" mm, ");
    line.append(grid.as_str());
    line.append(", OK@1%=");
    line.append(ok_at_1);
    line.append("%, OK@10%=");
    line.append(ok_at_10);
    line.append("%");
    Some(line)
}

/// The loss factors that an inversion found: its imaginary parts with the sign
/// turned.
pub fn loss_factors(imag: &Vec<Scalar>) -> (result: Vec<Scalar>)
    ensures
        result@ == flipped_values(imag@),
{
    negated_values(imag)
}

/// The errors that are finite.
pub open spec fn finite_errors(errors: Seq<Scalar>) -> Seq<Scalar> {
    errors.filter(|e: Scalar| e.finite())
}

/// How the spread of errors comes about.
#[derive(Debug)]
pub enum Spread {
    /// Fewer than two errors are finite.
    Zero,
    /// The standard deviation of these errors.
    Over(Vec<Scalar>),
}

/// How the spread of errors comes about: points at which the inversion failed do
/// not count.
pub fn spread_of(errors: &Vec<Scalar>) -> (result: Spread)
    ensures
        result is Zero <==> finite_errors(errors@).len() < 2,
        result matches Spread::Over(values) ==> values@ == finite_errors(errors@),
{
    let mut finite: Vec<Scalar> = Vec::new();
    let mut i: usize = 0;
    proof {
        reveal(Seq::filter);
        assert(errors@.take(0) == Seq::<Scalar>::empty());
        assert(finite@ =~= finite_errors(errors@.take(0)));
    }
    while i < errors.len()
        invariant
            i <= errors@.len(),
            finite@ == finite_errors(errors@.take(i as int)),
        decreases errors@.len() - i,
    {
        proof {
            lemma_finite_grows(errors@, i as int);
        }
        if errors[i].is_finite() {
            finite.push(errors[i]);
        }
        i += 1;
    }
    proof {
        assert(errors@.take(errors@.len() as int) == errors@);
    }
    if finite.len() < 2 {
        Spread::Zero
    } else {
        Spread::Over(finite)
    }
}

proof fn lemma_finite_grows(errors: Seq<Scalar>, k: int)
    requires
        0 <= k < errors.len(),
    ensures
        finite_errors(errors.take(k + 1)) == if errors[k].finite() {
            finite_errors(errors.take(k)).push(errors[k])
        } else {
            finite_errors(errors.take(k))
        },
{
    reveal(Seq::filter);
    assert(errors.take(k + 1).drop_last() == errors.take(k));
    assert(errors.take(k + 1).last() == errors[k]);
}

/// A complex model of a stored checkpoint has the normalization exactly where one of the
/// tensors is named as one of it; all else stays, and so does everything where the
/// tensors are not known.
pub proof fn tensors_tell_the_normalization(model: ModelConfig, names: Seq<String>, i: int)
    ensures
        detected_model(model, None) == model,
        model is Complex ==> (detected_model(model, Some(names)) matches ModelConfig::Complex {
            hidden_size,
            complex_activation,
            dropout,
            norm,
        } && {
            &&& hidden_size == model.width()
            &&& complex_activation == model->complex_activation
            &&& dropout == model.dropout_rate()
            &&& 0 <= i < names.len() && "model.norm."@.is_prefix_of(names[i]@) ==> norm
                is LayerNorm
            &&& (forall|k: int|
                0 <= k < names.len() ==> !"model.norm."@.is_prefix_of((#[trigger] names[k])@))
                ==> norm is Absent
        }),
{
}

/// The share within a standing threshold is that of the first classification which is less
/// than a hundredth away from it, and zero where none is.
pub proof fn shares_are_of_the_nearest_classification(
    distances: Seq<Scalar>,
    percents: Seq<Scalar>,
    i: int,
)
    requires
        distances.len() == percents.len(),
        0 <= i <= distances.len(),
        forall|k: int|
            0 <= k < i ==> !(#[trigger] distances[k]).lt(Scalar { bits: 0x3f84_7ae1_47ae_147b }),
    ensures
        i < distances.len() && distances[i].lt(Scalar { bits: 0x3f84_7ae1_47ae_147b })
            ==> percent_near(distances, percents) == percents[i],
        i == distances.len() ==> percent_near(distances, percents).bits == 0,
{
    if i == distances.len() || distances[i].lt(Scalar { bits: NEARNESS_BITS }) {
        lemma_percent_near(distances, percents, i);
    }
}

/// An axis has as many values as it is asked for: none, the lower bound alone, or values
/// spaced from the lower bound to the upper one.
pub proof fn axes_run_from_the_lower_bound(range: (Scalar, Scalar), n: usize)
    ensures
        n == 0 ==> axis_plan(range, n) is Empty,
        n == 1 ==> axis_plan(range, n) == AxisPlan::Single(range.0),
        n >= 2 ==> axis_plan(range, n) == AxisPlan::Spaced(range.0, range.1, n),
{
}

/// The errors that count for the spread are the finite ones, all of them and no other.
pub proof fn spreads_leave_out_failures(errors: Seq<Scalar>, e: Scalar)
    ensures
        finite_errors(errors).contains(e) <==> errors.contains(e) && e.finite(),
        (forall|i: int| 0 <= i < errors.len() ==> (#[trigger] errors[i]).finite())
            ==> finite_errors(errors) == errors,
{
    let pred = |e: Scalar| e.finite();
    let kept = errors.filter(pred);
    if kept.contains(e) {
        let k = choose|k: int| 0 <= k < kept.len() && kept[k] == e;
        errors.lemma_filter_pred(pred, k);
        errors.lemma_filter_contains_rev(pred, e);
    }
    if errors.contains(e) && e.finite() {
        let k = choose|k: int| 0 <= k < errors.len() && errors[k] == e;
        errors.lemma_filter_contains(pred, k);
    }
    lemma_all_finite(errors);
}

proof fn lemma_all_finite(errors: Seq<Scalar>)
    ensures
        (forall|i: int| 0 <= i < errors.len() ==> (#[trigger] errors[i]).finite())
            ==> finite_errors(errors) == errors,
    decreases errors.len(),
{
    reveal(Seq::filter);
    if errors.len() > 0 {
        let head = errors.drop_last();
        lemma_all_finite(head);
        assert(errors[errors.len() - 1] == errors.last());
        assert(head.push(errors.last()) =~= errors);
        if forall|i: int| 0 <= i < errors.len() ==> (#[trigger] errors[i]).finite() {
            assert forall|i: int| 0 <= i < head.len() implies (#[trigger] head[i]).finite() by {
                assert(errors[i].finite());
            }
        }
    } else {
        assert(finite_errors(errors) =~= errors);
    }
}

/// Every point of a grid for the closed-form inversion is asked with its own scattering
/// parameters, and is no sample of a patch.
pub proof fn points_keep_their_parameters(
    points: Seq<(Scalar, Scalar)>,
    s: Seq<S11S21>,
    dense_patch: bool,
    i: int,
)
    requires
        0 <= i < points.len(),
        points.len() == s.len(),
    ensures
        ({
            let sample = samples_at(points, s, dense_patch)[i];
            &&& samples_at(points, s, dense_patch).len() == points.len()
            &&& sample.eps_prime == points[i].0
            &&& sample.eps_double_prime == points[i].1
            &&& sample.s11_real == s[i].s11_real
            &&& sample.s11_imag == s[i].s11_imag
            &&& sample.s21_real == s[i].s21_real
            &&& sample.s21_imag == s[i].s21_imag
            &&& sample.is_dense_patch == dense_patch
        }),
{
}

} // verus!

//! Diagnostics of the closed-form inversion over a file of measurements.

use crate::base::error::{msg_error, piece_views, CoreError, Piece, PieceView};
use crate::base::grid::cell;
use crate::base::metrics::{classify_predictions, count_set, ok_mask};
use crate::base::validation::{
    is_non_negative, is_positive, validate_non_negative_f64, validate_positive_f64,
};
use crate::data::csv_table::TableUse;
use crate::data::generation::{
    first_fault, non_negative_fault, positive_fault, records_fault, sample_of,
    samples_from_records, CsvColumns, PermittivitySample, RecordReading,
};
use crate::scalar::{Scalar, ONE_BITS, TEN_BITS};
use crate::text::{
    concat2, concat3, copy_of, decimal, decimal_digits, join_lines, lines_text, views,
};
use vstd::prelude::*;
use vstd::string::StringExecFns;

verus! {

/// What a diagnosis is made with.
#[derive(Debug)]
pub struct NrwDiagnosticsConfig {
    /// Sample thickness in meters.
    pub d: Scalar,
    /// Waveguide width in meters.
    pub a: Scalar,
    /// Operating frequency in hertz.
    pub frequency: Scalar,
    /// Error thresholds in percent.
    pub thresholds: Vec<Scalar>,
    /// Maps are asked for.
    pub save_figures: bool,
    /// Where maps are written.
    pub artifacts_dir: String,
}

impl Default for NrwDiagnosticsConfig {
    /// A sample of 1.5 mm in a WR-90 guide at 8.2 GHz, at ten and at one percent,
    /// with maps.
    fn default() -> (result: NrwDiagnosticsConfig)
        ensures
            result.d.bits == 0x3f58_9374_bc6a_7efa,
            result.a.bits == 0x3f97_689c_a18b_d662,
            result.frequency.bits == 0x41fe_8c21_2000_0000,
            result.thresholds@ == seq![Scalar { bits: TEN_BITS }, Scalar { bits: ONE_BITS }],
            result.save_figures,
            result.artifacts_dir@ == "artifacts"@,
    {
        let mut thresholds: Vec<Scalar> = Vec::new();
        thresholds.push(Scalar::from_bits(TEN_BITS));
        thresholds.push(Scalar::one());
        proof {
            assert(thresholds@ =~= seq![Scalar { bits: TEN_BITS }, Scalar { bits: ONE_BITS }]);
        }
        NrwDiagnosticsConfig {
            d: Scalar::from_bits(0x3f58_9374_bc6a_7efa),
            a: Scalar::from_bits(0x3f97_689c_a18b_d662),
            frequency: Scalar::from_bits(0x41fe_8c21_2000_0000),
            thresholds,
            save_figures: true,
            artifacts_dir: copy_of("artifacts"),
        }
    }
}

/// The first threshold that is negative or not finite, as a fault.
pub open spec fn thresholds_fault(thresholds: Seq<Scalar>) -> Option<Seq<PieceView>>
    decreases thresholds.len(),
{
    if thresholds.len() == 0 {
        None
    } else {
        first_fault(
            thresholds_fault(thresholds.drop_last()),
            non_negative_fault("diagnostics threshold"@, thresholds.last()),
        )
    }
}

/// The fault of having no threshold.
pub open spec fn no_threshold_fault(thresholds: Seq<Scalar>) -> Option<Seq<PieceView>> {
    if thresholds.len() == 0 {
        Some(seq![PieceView::Text("At least one NRW diagnostics threshold is required"@)])
    } else {
        None
    }
}

/// Why a configuration is refused, if it is.
pub open spec fn diagnostics_fault(config: NrwDiagnosticsConfig) -> Option<Seq<PieceView>> {
    first_fault(
        positive_fault("sample thickness d"@, config.d),
        first_fault(
            positive_fault("waveguide width a"@, config.a),
            first_fault(
                positive_fault("operating frequency"@, config.frequency),
                first_fault(
                    no_threshold_fault(config.thresholds@),
                    thresholds_fault(config.thresholds@),
                ),
            ),
        ),
    )
}

proof fn lemma_thresholds_fault_is_kept(thresholds: Seq<Scalar>, k: int)
    requires
        0 <= k <= thresholds.len(),
        thresholds_fault(thresholds.take(k)) is Some,
    ensures
        thresholds_fault(thresholds) == thresholds_fault(thresholds.take(k)),
    decreases thresholds.len(),
{
    if k < thresholds.len() {
        assert(thresholds.drop_last().take(k) == thresholds.take(k));
        lemma_thresholds_fault_is_kept(thresholds.drop_last(), k);
    } else {
        assert(thresholds.take(k) == thresholds);
    }
}

/// Refuses geometry that is not positive, and thresholds that are missing or
/// negative.
pub fn validate_config(config: &NrwDiagnosticsConfig) -> (result: Result<(), CoreError>)
    ensures
        result is Ok <==> diagnostics_fault(*config) is None,
        result matches Err(e) ==> e.tells(diagnostics_fault(*config)->0),
{
    if let Err(e) = validate_positive_f64("sample thickness d", config.d) {
        return Err(e);
    }
    if let Err(e) = validate_positive_f64("waveguide width a", config.a) {
        return Err(e);
    }
    if let Err(e) = validate_positive_f64("operating frequency", config.frequency) {
        return Err(e);
    }
    if config.thresholds.len() == 0 {
        let e = msg_error("At least one NRW diagnostics threshold is required");
        return Err(e);
    }
    let mut i: usize = 0;
    proof {
        assert(config.thresholds@.take(0) == Seq::<Scalar>::empty());
    }
    while i < config.thresholds.len()
        invariant
            i <= config.thresholds@.len(),
            config.thresholds@.len() > 0,
            positive_fault("sample thickness d"@, config.d) is None,
            positive_fault("waveguide width a"@, config.a) is None,
            positive_fault("operating frequency"@, config.frequency) is None,
            thresholds_fault(config.thresholds@.take(i as int)) is None,
        decreases config.thresholds@.len() - i,
    {
        proof {
            let next = config.thresholds@.take(i + 1);
            assert(next.drop_last() == config.thresholds@.take(i as int));
            assert(next.last() == config.thresholds@[i as int]);
        }
        if let Err(e) = validate_non_negative_f64("diagnostics threshold", config.thresholds[i]) {
            proof {
                lemma_thresholds_fault_is_kept(config.thresholds@, i + 1);
            }
            return Err(e);
        }
        i += 1;
    }
    proof {
        assert(config.thresholds@.take(config.thresholds@.len() as int) == config.thresholds@);
    }
    Ok(())
}

/// The measurements of a file whose fields have been read as numbers. `name` is
/// what the file is called.
pub fn diagnostics_samples(columns: &CsvColumns, records: &Vec<RecordReading>, name: &str) -> (result:
    Result<Vec<PermittivitySample>, CoreError>)
    ensures
        result is Ok <==> records_fault(records@, *columns, TableUse::Diagnostics) is None
            && records@.len() > 0,
        result matches Ok(samples) ==> samples@.len() == records@.len() && (forall|i: int|
            0 <= i < records@.len() ==> #[trigger] samples@[i] == sample_of(
                records@[i]->Ok_0@,
                *columns,
            )),
        result matches Err(e) ==> e.says(
            match records_fault(records@, *columns, TableUse::Diagnostics) {
                Some(text) => text,
                None => "NRW diagnostics input '"@ + name@ + "' does not contain any samples"@,
            },
        ),
{
    match samples_from_records(columns, records, TableUse::Diagnostics) {
        Ok(samples) => {
            if samples.len() == 0 {
                return Err(
                    CoreError::Msg(
                        concat3(
                            "NRW diagnostics input '",
                            name,
                            "' does not contain any samples",
                        ),
                    ),
                );
            }
            Ok(samples)
        },
        Err(e) => Err(e),
    }
}

/// Where a value stands on an axis: at the first place that is within the
/// tolerance. `distances` are how far the axis values are from it.
pub fn find_axis_index(distances: &[Scalar], tolerance: Scalar) -> (result: Option<usize>)
    ensures
        result matches Some(i) ==> i < distances@.len() && distances@[i as int].le(tolerance) && (
        forall|k: int| 0 <= k < i ==> !(#[trigger] distances@[k]).le(tolerance)),
        result is None ==> (forall|k: int|
            0 <= k < distances@.len() ==> !(#[trigger] distances@[k]).le(tolerance)),
{
    let mut i: usize = 0;
    while i < distances.len()
        invariant
            i <= distances@.len(),
            forall|k: int| 0 <= k < i ==> !(#[trigger] distances@[k]).le(tolerance),
        decreases distances@.len() - i,
    {
        if distances[i].at_most(tolerance) {
            return Some(i);
        }
        i += 1;
    }
    None
}

/// The flags laid out over a grid `width` wide, row by row: the flag of each sample
/// stands in its cell, and a later sample replaces an earlier one.
pub open spec fn placed_mask(
    mask: Seq<bool>,
    columns: Seq<Option<usize>>,
    rows: Seq<Option<usize>>,
    width: int,
    height: int,
) -> Seq<bool>
    decreases mask.len(),
{
    if mask.len() == 0 {
        Seq::new((width * height) as nat, |i: int| false)
    } else {
        let last = mask.len() - 1;
        placed_mask(mask.drop_last(), columns, rows, width, height).update(
            cell(width, columns[last]->0 as int, rows[last]->0 as int),
            mask.last(),
        )
    }
}

/// Why samples cannot be laid out, if they cannot: the first of them that has no
/// place on an axis.
pub open spec fn placement_fault(
    columns: Seq<Option<usize>>,
    rows: Seq<Option<usize>>,
    eps_prime: Seq<Scalar>,
    eps_double_prime: Seq<Scalar>,
) -> Option<Seq<PieceView>>
    decreases columns.len(),
{
    if columns.len() == 0 {
        None
    } else {
        let last = columns.len() - 1;
        first_fault(
            placement_fault(columns.drop_last(), rows, eps_prime, eps_double_prime),
            if columns[last] is None {
                Some(off_grid("eps' value "@, eps_prime[last]))
            } else if rows[last] is None {
                Some(off_grid("eps'' value "@, eps_double_prime[last]))
            } else {
                None
            },
        )
    }
}

/// The message for a value that has no place on an axis.
pub open spec fn off_grid(what: Seq<char>, value: Scalar) -> Seq<PieceView> {
    seq![
        PieceView::Text(what),
        PieceView::Number(value),
        PieceView::Text(" does not belong to the detected grid"@),
    ]
}

fn off_grid_error(what: &str, value: Scalar) -> (result: CoreError)
    ensures
        result.tells(off_grid(what@, value)),
{
    let mut pieces: Vec<Piece> = Vec::new();
    pieces.push(Piece::Text(copy_of(what)));
    pieces.push(Piece::Number(value));
    pieces.push(Piece::Text(copy_of(" does not belong to the detected grid")));
    proof {
        assert(piece_views(pieces@) =~= off_grid(what@, value));
    }
    CoreError::Numeric(pieces)
}

proof fn lemma_placement_fault_is_kept(
    columns: Seq<Option<usize>>,
    rows: Seq<Option<usize>>,
    eps_prime: Seq<Scalar>,
    eps_double_prime: Seq<Scalar>,
    k: int,
)
    requires
        0 <= k <= columns.len(),
        placement_fault(columns.take(k), rows, eps_prime, eps_double_prime) is Some,
    ensures
        placement_fault(columns, rows, eps_prime, eps_double_prime) == placement_fault(
            columns.take(k),
            rows,
            eps_prime,
            eps_double_prime,
        ),
    decreases columns.len(),
{
    if k < columns.len() {
        assert(columns.drop_last().take(k) == columns.take(k));
        lemma_placement_fault_is_kept(columns.drop_last(), rows, eps_prime, eps_double_prime, k);
    } else {
        assert(columns.take(k) == columns);
    }
}

/// The message for lists of different lengths.
pub open spec fn count_mismatch() -> Seq<PieceView> {
    seq![PieceView::Text("Grid reordering requires matching sample counts"@)]
}

/// Lays a mask out over a grid. `columns` and `rows` are where the samples' values
/// were found on the axes.
pub fn reorder_mask_for_grid(
    mask: &Vec<bool>,
    dims: (usize, usize),
    columns: &Vec<Option<usize>>,
    rows: &Vec<Option<usize>>,
    eps_prime: &Vec<Scalar>,
    eps_double_prime: &Vec<Scalar>,
) -> (result: Result<Vec<bool>, CoreError>)
    requires
        dims.0 * dims.1 <= usize::MAX,
        columns@.len() == eps_prime@.len(),
        rows@.len() == eps_double_prime@.len(),
        forall|i: int|
            0 <= i < columns@.len() ==> ((#[trigger] columns@[i]) matches Some(x) ==> x < dims.0),
        forall|i: int|
            0 <= i < rows@.len() ==> ((#[trigger] rows@[i]) matches Some(y) ==> y < dims.1),
    ensures
        result is Ok <==> mask@.len() == eps_prime@.len() && mask@.len() == eps_double_prime@.len()
            && placement_fault(columns@, rows@, eps_prime@, eps_double_prime@) is None,
        result matches Ok(ordered) ==> ordered@ == placed_mask(
            mask@,
            columns@,
            rows@,
            dims.0 as int,
            dims.1 as int,
        ),
        result matches Err(e) ==> e.tells(if mask@.len() == eps_prime@.len() && mask@.len()
            == eps_double_prime@.len() {
            placement_fault(columns@, rows@, eps_prime@, eps_double_prime@)->0
        } else {
            count_mismatch()
        }),
{
    if mask.len() != eps_prime.len() || mask.len() != eps_double_prime.len() {
        let e = msg_error("Grid reordering requires matching sample counts");
        return Err(e);
    }
    let (nx, ny) = dims;
    let size: usize = nx * ny;
    let mut ordered: Vec<bool> = Vec::new();
    let mut filled: usize = 0;
    while filled < size
        invariant
            filled <= size,
            ordered@ == Seq::new(filled as nat, |i: int| false),
        decreases size - filled,
    {
        ordered.push(false);
        filled += 1;
        proof {
            assert(ordered@ =~= Seq::new(filled as nat, |i: int| false));
        }
    }
    let mut i: usize = 0;
    proof {
        assert(mask@.take(0) == Seq::<bool>::empty());
        assert(columns@.take(0) == Seq::<Option<usize>>::empty());
    }
    while i < mask.len()
        invariant
            i <= mask@.len(),
            mask@.len() == eps_prime@.len(),
            mask@.len() == eps_double_prime@.len(),
            columns@.len() == mask@.len(),
            rows@.len() == mask@.len(),
            size == nx * ny,
            ordered@.len() == size,
            forall|k: int|
                0 <= k < columns@.len() ==> ((#[trigger] columns@[k]) matches Some(x) ==> x < nx),
            forall|k: int|
                0 <= k < rows@.len() ==> ((#[trigger] rows@[k]) matches Some(y) ==> y < ny),
            placement_fault(
                columns@.take(i as int),
                rows@,
                eps_prime@,
                eps_double_prime@,
            ) is None,
            ordered@ == placed_mask(
                mask@.take(i as int),
                columns@,
                rows@,
                nx as int,
                ny as int,
            ),
        decreases mask@.len() - i,
    {
        proof {
            assert(columns@.take(i + 1).drop_last() == columns@.take(i as int));
            assert(mask@.take(i + 1).drop_last() == mask@.take(i as int));
            assert(mask@.take(i + 1).last() == mask@[i as int]);
        }
        let x: usize = match columns[i] {
            Some(x) => x,
            None => {
                proof {
                    lemma_placement_fault_is_kept(
                        columns@,
                        rows@,
                        eps_prime@,
                        eps_double_prime@,
                        i + 1,
                    );
                }
                return Err(off_grid_error("eps' value ", eps_prime[i]));
            },
        };
        let y: usize = match rows[i] {
            Some(y) => y,
            None => {
                proof {
                    lemma_placement_fault_is_kept(
                        columns@,
                        rows@,
                        eps_prime@,
                        eps_double_prime@,
                        i + 1,
                    );
                }
                return Err(off_grid_error("eps'' value ", eps_double_prime[i]));
            },
        };
        proof {
            assert(0 <= y * nx && y * nx + x < nx * ny) by (nonlinear_arith)
                requires
                    0 <= x < nx,
                    0 <= y < ny,
            ;
        }
        let flag = mask[i];
        ordered.set(y * nx + x, flag);
        i += 1;
    }
    proof {
        assert(mask@.take(mask@.len() as int) == mask@);
        assert(columns@.take(columns@.len() as int) == columns@);
    }
    Ok(ordered)
}

/// A threshold with how many samples are within it.
#[derive(Clone, Copy, Debug, PartialEq, Eq, Structural)]
pub struct ThresholdResult {
    pub threshold: Scalar,
    pub ok_count: usize,
}

/// A map: the samples within a threshold, laid out over the grid.
#[derive(Debug)]
pub struct NrwDiagnosticsFigure {
    pub threshold: Scalar,
    pub ordered_mask: Vec<bool>,
}

/// The samples within each threshold, and the maps of them.
#[derive(Debug)]
pub struct ThresholdAnalysis {
    pub results: Vec<ThresholdResult>,
    pub figures: Vec<NrwDiagnosticsFigure>,
}

/// The width of a grid.
pub open spec fn grid_width(dims: Option<(usize, usize)>) -> int {
    match dims {
        Some(d) => d.0 as int,
        None => 0,
    }
}

/// The height of a grid.
pub open spec fn grid_height(dims: Option<(usize, usize)>) -> int {
    match dims {
        Some(d) => d.1 as int,
        None => 0,
    }
}

/// Classifies the errors by each threshold, and lays the classes out over the grid
/// where there is one and maps are asked for.
pub fn analyze_thresholds(
    config: &NrwDiagnosticsConfig,
    errors: &Vec<Scalar>,
    dims: Option<(usize, usize)>,
    columns: &Vec<Option<usize>>,
    rows: &Vec<Option<usize>>,
    eps_prime: &Vec<Scalar>,
    eps_double_prime: &Vec<Scalar>,
) -> (result: Result<ThresholdAnalysis, CoreError>)
    requires
        config.thresholds@.len() > 0,
        errors@.len() == eps_prime@.len(),
        errors@.len() == eps_double_prime@.len(),
        columns@.len() == eps_prime@.len(),
        rows@.len() == eps_double_prime@.len(),
        dims matches Some(d) ==> d.0 * d.1 <= usize::MAX && (forall|i: int|
            0 <= i < columns@.len() ==> ((#[trigger] columns@[i]) matches Some(x) ==> x < d.0))
            && (forall|i: int|
            0 <= i < rows@.len() ==> ((#[trigger] rows@[i]) matches Some(y) ==> y < d.1)),
    ensures
        result is Ok <==> !(config.save_figures && dims is Some) || placement_fault(
            columns@,
            rows@,
            eps_prime@,
            eps_double_prime@,
        ) is None,
        result matches Err(e) ==> e.tells(placement_fault(
            columns@,
            rows@,
            eps_prime@,
            eps_double_prime@,
        )->0),
        result matches Ok(analysis) ==> {
            &&& analysis.results@.len() == config.thresholds@.len()
            &&& forall|t: int|
                0 <= t < analysis.results@.len() ==> {
                    &&& (#[trigger] analysis.results@[t]).threshold == config.thresholds@[t]
                    &&& analysis.results@[t].ok_count == count_set(
                        ok_mask(errors@, config.thresholds@[t]),
                    )
                }
            &&& analysis.figures@.len() == if config.save_figures && dims is Some {
                config.thresholds@.len()
            } else {
                0
            }
            &&& forall|t: int|
                0 <= t < analysis.figures@.len() ==> {
                    &&& (#[trigger] analysis.figures@[t]).threshold == config.thresholds@[t]
                    &&& analysis.figures@[t].ordered_mask@ == placed_mask(
                        ok_mask(errors@, config.thresholds@[t]),
                        columns@,
                        rows@,
                        grid_width(dims),
                        grid_height(dims),
                    )
                }
        },
{
    let mut results: Vec<ThresholdResult> = Vec::new();
    let mut figures: Vec<NrwDiagnosticsFigure> = Vec::new();
    let mapped: bool = config.save_figures && dims.is_some();
    let mut t: usize = 0;
    while t < config.thresholds.len()
        invariant
            t <= config.thresholds@.len(),
            mapped == (config.save_figures && dims is Some),
            errors@.len() == eps_prime@.len(),
            errors@.len() == eps_double_prime@.len(),
            columns@.len() == eps_prime@.len(),
            rows@.len() == eps_double_prime@.len(),
            dims matches Some(d) ==> d.0 * d.1 <= usize::MAX && (forall|i: int|
                0 <= i < columns@.len() ==> ((#[trigger] columns@[i]) matches Some(x) ==> x
                    < d.0)) && (forall|i: int|
                0 <= i < rows@.len() ==> ((#[trigger] rows@[i]) matches Some(y) ==> y < d.1)),
            mapped && t > 0 ==> placement_fault(
                columns@,
                rows@,
                eps_prime@,
                eps_double_prime@,
            ) is None,
            results@.len() == t,
            forall|k: int|
                0 <= k < t ==> {
                    &&& (#[trigger] results@[k]).threshold == config.thresholds@[k]
                    &&& results@[k].ok_count == count_set(
                        ok_mask(errors@, config.thresholds@[k]),
                    )
                },
            figures@.len() == if mapped {
                t as int
            } else {
                0
            },
            forall|k: int|
                0 <= k < figures@.len() ==> {
                    &&& (#[trigger] figures@[k]).threshold == config.thresholds@[k]
                    &&& figures@[k].ordered_mask@ == placed_mask(
                        ok_mask(errors@, config.thresholds@[k]),
                        columns@,
                        rows@,
                        grid_width(dims),
                        grid_height(dims),
                    )
                },
        decreases config.thresholds@.len() - t,
    {
        let threshold = config.thresholds[t];
        let classification = classify_predictions(errors.as_slice(), threshold);
        results.push(ThresholdResult { threshold, ok_count: classification.ok_count });
        if mapped {
            if let Some(d) = dims {
                match reorder_mask_for_grid(
                    &classification.ok_mask,
                    d,
                    columns,
                    rows,
                    eps_prime,
                    eps_double_prime,
                ) {
                    Ok(ordered_mask) => {
                        figures.push(NrwDiagnosticsFigure { threshold, ordered_mask });
                    },
                    Err(e) => return Err(e),
                }
            }
        }
        t += 1;
    }
    Ok(ThresholdAnalysis { results, figures })
}

/// A diagnosis.
#[derive(Debug)]
pub struct NrwDiagnosticsReport {
    pub n_samples: usize,
    /// The size of the grid that the samples form, if they do.
    pub grid_dims: Option<(usize, usize)>,
    pub threshold_results: Vec<ThresholdResult>,
    pub r2_real: Scalar,
    pub r2_imag: Scalar,
    pub mean_error: Scalar,
    pub max_error: Scalar,
    pub min_error: Scalar,
    pub figure_paths: Vec<String>,
}

/// Figures of a diagnosis that come out of arithmetic on its errors.
#[derive(Clone, Copy, Debug, PartialEq, Eq, Structural)]
pub struct DiagnosticsFigures {
    pub r2_real: Scalar,
    pub r2_imag: Scalar,
    pub mean_error: Scalar,
    pub max_error: Scalar,
    pub min_error: Scalar,
}

/// Puts a diagnosis together. Maps are not written yet.
pub fn build_report(
    n_samples: usize,
    grid_dims: Option<(usize, usize)>,
    threshold_results: Vec<ThresholdResult>,
    figures: &DiagnosticsFigures,
) -> (result: NrwDiagnosticsReport)
    ensures
        result.n_samples == n_samples,
        result.grid_dims == grid_dims,
        result.threshold_results == threshold_results,
        result.r2_real == figures.r2_real,
        result.r2_imag == figures.r2_imag,
        result.mean_error == figures.mean_error,
        result.max_error == figures.max_error,
        result.min_error == figures.min_error,
        result.figure_paths@.len() == 0,
{
    NrwDiagnosticsReport {
        n_samples,
        grid_dims,
        threshold_results,
        r2_real: figures.r2_real,
        r2_imag: figures.r2_imag,
        mean_error: figures.mean_error,
        max_error: figures.max_error,
        min_error: figures.min_error,
        figure_paths: Vec::new(),
    }
}

/// Numbers of a diagnosis that are written with a fixed number of digits.
#[derive(Debug)]
pub struct DiagnosticsTexts {
    pub width_mm: String,
    pub thickness_mm: String,
    pub frequency_ghz: String,
    pub mean_error: String,
    pub max_error: String,
    pub min_error: String,
    pub r2_real: String,
    pub r2_imag: String,
    /// Each threshold, and the share of samples within it.
    pub thresholds: Vec<(String, String)>,
}

/// A heavy rule.
pub open spec fn heavy_rule() -> Seq<char> {
    "================================================================================"@
}

/// A rule.
pub open spec fn rule() -> Seq<char> {
    "============================================================"@
}

/// The line on the grid.
pub open spec fn grid_line(dims: Option<(usize, usize)>) -> Seq<char> {
    match dims {
        Some(d) => "Grid structure: "@ + decimal_digits(d.0 as nat) + " x "@ + decimal_digits(
            d.1 as nat,
        ),
        None => "Grid structure: not detected"@,
    }
}

/// The lines at the head of a summary.
pub open spec fn head_lines(report: NrwDiagnosticsReport, texts: DiagnosticsTexts) -> Seq<
    Seq<char>,
> {
    seq![
        heavy_rule(),
        "NRW INVERSE ALGORITHM DIAGNOSTICS"@,
        heavy_rule(),
        "Test samples: "@ + decimal_digits(report.n_samples as nat),
        "Waveguide: a="@ + texts.width_mm@ + "mm, d="@ + texts.thickness_mm@ + "mm, f="@
            + texts.frequency_ghz@ + "GHz"@,
        ""@,
    ]
}

/// The lines on a threshold.
pub open spec fn threshold_lines(
    report: NrwDiagnosticsReport,
    texts: DiagnosticsTexts,
    t: int,
) -> Seq<Seq<char>> {
    let threshold = texts.thresholds@[t].0@;
    seq![
        "--- Threshold: "@ + threshold + "% ---"@,
        rule(),
        "Permittivity Error Analysis Summary"@,
        rule(),
        "Total samples: "@ + decimal_digits(report.n_samples as nat),
        grid_line(report.grid_dims),
        "Error threshold: "@ + threshold + "%"@,
        "Samples within threshold: "@ + decimal_digits(
            report.threshold_results@[t].ok_count as nat,
        ) + "/"@ + decimal_digits(report.n_samples as nat) + " ("@ + texts.thresholds@[t].1@
            + "%)"@,
        "Mean error: "@ + texts.mean_error@ + "%"@,
        "Max error: "@ + texts.max_error@ + "%"@,
        "Min error: "@ + texts.min_error@ + "%"@,
        rule(),
        ""@,
    ]
}

/// The lines on the first `count` thresholds.
pub open spec fn thresholds_lines(
    report: NrwDiagnosticsReport,
    texts: DiagnosticsTexts,
    count: nat,
) -> Seq<Seq<char>>
    decreases count,
{
    if count == 0 {
        Seq::<Seq<char>>::empty()
    } else {
        thresholds_lines(report, texts, (count - 1) as nat) + threshold_lines(
            report,
            texts,
            count - 1,
        )
    }
}

/// The lines at the end of a summary.
pub open spec fn tail_lines(texts: DiagnosticsTexts) -> Seq<Seq<char>> {
    seq![
        "R^2 scores:"@,
        " eps' (real): "@ + texts.r2_real@,
        " eps'' (imag): "@ + texts.r2_imag@,
        ""@,
        heavy_rule(),
        "NRW DIAGNOSTICS COMPLETE"@,
        heavy_rule(),
        ""@,
    ]
}

fn heavy() -> (result: String)
    ensures
        result@ == heavy_rule(),
{
    copy_of("================================================================================")
}

fn light() -> (result: String)
    ensures
        result@ == rule(),
{
    copy_of("============================================================")
}

/// The summary of a diagnosis.
pub fn format_nrw_diagnostics_summary(report: &NrwDiagnosticsReport, texts: &DiagnosticsTexts) -> (result:
    String)
    requires
        texts.thresholds@.len() == report.threshold_results@.len(),
    ensures
        result@ == lines_text(
            head_lines(*report, *texts) + thresholds_lines(
                *report,
                *texts,
                report.threshold_results@.len(),
            ) + tail_lines(*texts),
        ),
{
    let samples = decimal(report.n_samples as u64);
    let mut lines: Vec<String> = Vec::new();
    lines.push(heavy());
    lines.push(copy_of("NRW INVERSE ALGORITHM DIAGNOSTICS"));
    lines.push(heavy());
    lines.push(concat2("Test samples: ", samples.as_str()));
    let mut guide = concat3("Waveguide: a=", texts.width_mm.as_str(), "mm, d=");
    guide.append(texts.thickness_mm.as_str());
    guide.append("mm, f=");
    guide.append(texts.frequency_ghz.as_str());
    guide.append("GHz");
    lines.push(guide);
    lines.push(copy_of(""));
    let grid = match report.grid_dims {
        Some(d) => {
            let nx = decimal(d.0 as u64);
            let ny = decimal(d.1 as u64);
            let mut line = concat3("Grid structure: ", nx.as_str(), " x ");
            line.append(ny.as_str());
            line
        },
        None => copy_of("Grid structure: not detected"),
    };
    proof {
        assert(views(lines@) =~= head_lines(*report, *texts));
        assert(views(lines@) =~= head_lines(*report, *texts) + thresholds_lines(
            *report,
            *texts,
            0,
        ));
    }
    let mut t: usize = 0;
    while t < report.threshold_results.len()
        invariant
            t <= report.threshold_results@.len(),
            texts.thresholds@.len() == report.threshold_results@.len(),
            samples@ == decimal_digits(report.n_samples as nat),
            grid@ == grid_line(report.grid_dims),
            views(lines@) == head_lines(*report, *texts) + thresholds_lines(
                *report,
                *texts,
                t as nat,
            ),
        decreases report.threshold_results@.len() - t,
    {
        let ghost before = views(lines@);
        let threshold = texts.thresholds[t].0.as_str();
        let percent = texts.thresholds[t].1.as_str();
        lines.push(concat3("--- Threshold: ", threshold, "% ---"));
        lines.push(light());
        lines.push(copy_of("Permittivity Error Analysis Summary"));
        lines.push(light());
        lines.push(concat2("Total samples: ", samples.as_str()));
        lines.push(copy_of(grid.as_str()));
        lines.push(concat3("Error threshold: ", threshold, "%"));
        let count = decimal(report.threshold_results[t].ok_count as u64);
        let mut share = concat3("Samples within threshold: ", count.as_str(), "/");
        share.append(samples.as_str());
        share.append(" (");
        share.append(percent);
        share.append("%)");
        lines.push(share);
        lines.push(concat3("Mean error: ", texts.mean_error.as_str(), "%"));
        lines.push(concat3("Max error: ", texts.max_error.as_str(), "%"));
        lines.push(concat3("Min error: ", texts.min_error.as_str(), "%"));
        lines.push(light());
        lines.push(copy_of(""));
        proof {
            let added = threshold_lines(*report, *texts, t as int);
            assert(views(lines@) =~= before + added);
            assert(thresholds_lines(*report, *texts, (t + 1) as nat) == thresholds_lines(
                *report,
                *texts,
                t as nat,
            ) + added);
            assert(views(lines@) =~= head_lines(*report, *texts) + thresholds_lines(
                *report,
                *texts,
                (t + 1) as nat,
            ));
        }
        t += 1;
    }
    let ghost before = views(lines@);
    lines.push(copy_of("R^2 scores:"));
    lines.push(concat2(" eps' (real): ", texts.r2_real.as_str()));
    lines.push(concat2(" eps'' (imag): ", texts.r2_imag.as_str()));
    lines.push(copy_of(""));
    lines.push(heavy());
    lines.push(copy_of("NRW DIAGNOSTICS COMPLETE"));
    lines.push(heavy());
    lines.push(copy_of(""));
    proof {
        assert(views(lines@) =~= before + tail_lines(*texts));
    }
    join_lines(&lines)
}

/// A configuration is valid exactly where thickness, width and frequency are positive and
/// there are thresholds, none of them negative.
pub proof fn diagnostics_need_positive_sizes_and_thresholds(config: NrwDiagnosticsConfig)
    ensures
        diagnostics_fault(config) is None <==> {
            &&& is_positive(config.d)
            &&& is_positive(config.a)
            &&& is_positive(config.frequency)
            &&& config.thresholds@.len() > 0
            &&& forall|t: int|
                0 <= t < config.thresholds@.len() ==> is_non_negative(
                    #[trigger] config.thresholds@[t],
                )
        },
{
    lemma_thresholds(config.thresholds@);
}

proof fn lemma_thresholds(thresholds: Seq<Scalar>)
    ensures
        thresholds_fault(thresholds) is None <==> (forall|t: int|
            0 <= t < thresholds.len() ==> is_non_negative(#[trigger] thresholds[t])),
    decreases thresholds.len(),
{
    if thresholds.len() > 0 {
        let head = thresholds.drop_last();
        let last = thresholds.len() - 1;
        lemma_thresholds(head);
        assert(thresholds[last] == thresholds.last());
        if thresholds_fault(thresholds) is None {
            assert forall|t: int| 0 <= t < thresholds.len() implies is_non_negative(
                #[trigger] thresholds[t],
            ) by {
                if t < last {
                    assert(head[t] == thresholds[t]);
                }
            }
        }
        if forall|t: int|
            0 <= t < thresholds.len() ==> is_non_negative(#[trigger] thresholds[t]) {
            assert forall|t: int| 0 <= t < head.len() implies is_non_negative(
                #[trigger] head[t],
            ) by {
                assert(head[t] == thresholds[t]);
            }
        }
    }
}

/// Points can be put on a grid exactly where each has a column and a row.
pub proof fn points_need_a_column_and_a_row(
    columns: Seq<Option<usize>>,
    rows: Seq<Option<usize>>,
    eps_prime: Seq<Scalar>,
    eps_double_prime: Seq<Scalar>,
)
    ensures
        placement_fault(columns, rows, eps_prime, eps_double_prime) is None <==> (forall|i: int|
            0 <= i < columns.len() ==> (#[trigger] columns[i]) is Some && rows[i] is Some),
    decreases columns.len(),
{
    if columns.len() > 0 {
        let head = columns.drop_last();
        let last = columns.len() - 1;
        points_need_a_column_and_a_row(head, rows, eps_prime, eps_double_prime);
        assert(columns[last] == columns.last());
        if placement_fault(columns, rows, eps_prime, eps_double_prime) is None {
            assert forall|i: int| 0 <= i < columns.len() implies (#[trigger] columns[i]) is Some
                && rows[i] is Some by {
                if i < last {
                    assert(head[i] == columns[i]);
                }
            }
        }
        if forall|i: int|
            0 <= i < columns.len() ==> (#[trigger] columns[i]) is Some && rows[i] is Some {
            assert forall|i: int| 0 <= i < head.len() implies (#[trigger] head[i]) is Some
                && rows[i] is Some by {
                assert(head[i] == columns[i]);
            }
        }
    }
}

/// On a grid, every point is found in the cell of its column and row, rows one after the
/// other, provided that no two points share a cell; cells without a point are not good.
pub proof fn points_stand_in_their_cells(
    mask: Seq<bool>,
    columns: Seq<Option<usize>>,
    rows: Seq<Option<usize>>,
    width: int,
    height: int,
    at: int,
)
    requires
        0 <= at < width * height,
        forall|i: int|
            0 <= i < mask.len() ==> 0 <= rows[i]->0 * width + (#[trigger] columns[i])->0 < width
                * height,
        forall|i: int, j: int|
            0 <= i < j < mask.len() ==> rows[i]->0 * width + (#[trigger] columns[i])->0
                != rows[j]->0 * width + (#[trigger] columns[j])->0,
    ensures
        placed_mask(mask, columns, rows, width, height).len() == width * height,
        forall|i: int|
            0 <= i < mask.len() && rows[i]->0 * width + (#[trigger] columns[i])->0 == at
                ==> placed_mask(mask, columns, rows, width, height)[at] == mask[i],
        (forall|i: int|
            0 <= i < mask.len() ==> rows[i]->0 * width + (#[trigger] columns[i])->0 != at)
            ==> !placed_mask(mask, columns, rows, width, height)[at],
    decreases mask.len(),
{
    if mask.len() > 0 {
        let head = mask.drop_last();
        let last = mask.len() - 1;
        points_stand_in_their_cells(head, columns, rows, width, height, at);
        let place = cell(width, columns[last]->0 as int, rows[last]->0 as int);
        assert(place == rows[last]->0 * width + columns[last]->0);
        assert(0 <= rows[last]->0 * width + columns[last]->0 < width * height);
        assert forall|i: int|
            0 <= i < mask.len() && rows[i]->0 * width + (#[trigger] columns[i])->0
                == at implies placed_mask(mask, columns, rows, width, height)[at] == mask[i] by {
            if i < last {
                assert(rows[i]->0 * width + columns[i]->0 != rows[last]->0 * width
                    + columns[last]->0);
                assert(head[i] == mask[i]);
            }
        }
        if forall|i: int|
            0 <= i < mask.len() ==> rows[i]->0 * width + (#[trigger] columns[i])->0 != at {
            assert(rows[last]->0 * width + columns[last]->0 != at);
        }
    }
}

/// The lines of a threshold give its own count out of all samples, and the errors under
/// their names.
pub proof fn thresholds_are_told_with_their_counts(
    report: NrwDiagnosticsReport,
    texts: DiagnosticsTexts,
    t: int,
)
    requires
        0 <= t < report.threshold_results@.len(),
        texts.thresholds@.len() == report.threshold_results@.len(),
    ensures
        ({
            let lines = threshold_lines(report, texts, t);
            &&& lines[0] == "--- Threshold: "@ + texts.thresholds@[t].0@ + "% ---"@
            &&& lines[4] == "Total samples: "@ + decimal_digits(report.n_samples as nat)
            &&& lines[7] == "Samples within threshold: "@ + decimal_digits(
                report.threshold_results@[t].ok_count as nat,
            ) + "/"@ + decimal_digits(report.n_samples as nat) + " ("@ + texts.thresholds@[t].1@
                + "%)"@
            &&& lines[8] == "Mean error: "@ + texts.mean_error@ + "%"@
            &&& lines[9] == "Max error: "@ + texts.max_error@ + "%"@
            &&& lines[10] == "Min error: "@ + texts.min_error@ + "%"@
        }),
        tail_lines(texts)[1] == " eps' (real): "@ + texts.r2_real@,
        tail_lines(texts)[2] == " eps'' (imag): "@ + texts.r2_imag@,
        head_lines(report, texts)[3] == "Test samples: "@ + decimal_digits(
            report.n_samples as nat,
        ),
{
}

/// Thresholds are reported one after the other, in their order, by thirteen lines each.
pub proof fn thresholds_are_told_in_order(
    report: NrwDiagnosticsReport,
    texts: DiagnosticsTexts,
    count: nat,
    t: int,
)
    requires
        0 <= t < count,
    ensures
        thresholds_lines(report, texts, count).len() == 13 * count,
        thresholds_lines(report, texts, count).subrange(13 * t, 13 * t + 13) == threshold_lines(
            report,
            texts,
            t,
        ),
    decreases count,
{
    let all = thresholds_lines(report, texts, count);
    let fewer = (count - 1) as nat;
    let before = thresholds_lines(report, texts, fewer);
    if fewer > 0 {
        thresholds_are_told_in_order(report, texts, fewer, 0);
    }
    assert(before.len() == 13 * fewer);
    if t < fewer {
        thresholds_are_told_in_order(report, texts, fewer, t);
        assert(all.subrange(13 * t, 13 * t + 13) =~= before.subrange(13 * t, 13 * t + 13));
    } else {
        assert(all.subrange(13 * t, 13 * t + 13) =~= threshold_lines(report, texts, t));
    }
}

/// A grid that was found gives the dimensions of the masks; without one they are empty.
pub proof fn masks_have_the_size_of_the_grid(dims: Option<(usize, usize)>)
    ensures
        dims matches Some(d) ==> grid_width(dims) == d.0 && grid_height(dims) == d.1,
        dims is None ==> grid_width(dims) == 0 && grid_height(dims) == 0,
        dims matches Some(d) ==> grid_line(dims) == "Grid structure: "@ + decimal_digits(
            d.0 as nat,
        ) + " x "@ + decimal_digits(d.1 as nat),
        dims is None ==> grid_line(dims) == "Grid structure: not detected"@,
{
}

} // verus!

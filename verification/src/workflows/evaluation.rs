//! How predictions are read, classified and charted.

use super::grid_chart::{
    build_grid_chart, eps_double_primes, eps_primes, picks, within, GridChart,
};
use crate::base::error::CoreError;
use crate::base::grid::forms_grid;
use crate::base::metrics::{
    classify_predictions, is_largest, is_smallest, mean_rule, median_rule,
    summarize_relative_errors, ClassificationResult, ComplexR2Scores, RelativeErrorMetrics,
};
use crate::base::validation::{dims_text, format_dims};
use crate::data::complex_tensor::{flipped_values, negated_values, ComplexTensor};
use crate::data::generation::PermittivitySample;
use crate::data::scaling::{dtype_name, dtype_text};
use crate::data::tensor::{
    all_rows, equally_wide, join_columns, join_rows, lemma_matrix_size, lemma_row_bounds, DType,
    Tensor,
};
use crate::data::tensor_bridges::{unpack_complex_features, unpack_fault, PredictionEncoding};
use crate::scalar::{Scalar, ONE_BITS, TEN_BITS};
use crate::text::{concat2, concat3, decimal};
use vstd::prelude::*;
use vstd::string::StringExecFns;

verus! {

/// The pattern of 0.01, how near a threshold must be to the one that is asked for.
pub const NEARNESS_BITS: u64 = 0x3f84_7ae1_47ae_147b;

/// The permittivities that were to be found, and those that were predicted.
#[derive(Debug)]
pub struct PredictionVectors {
    pub true_real: Vec<Scalar>,
    pub true_imag: Vec<Scalar>,
    pub pred_real: Vec<Scalar>,
    pub pred_imag: Vec<Scalar>,
}

/// One column of a matrix.
pub open spec fn column_of_rows(t: Tensor, column: int) -> Seq<Scalar> {
    t.rows().map_values(|row: Seq<Scalar>| row[column])
}

/// Values with the sign that an encoding stores them with taken back.
pub open spec fn decoded(values: Seq<Scalar>, negate: bool) -> Seq<Scalar> {
    if negate {
        flipped_values(values)
    } else {
        values
    }
}

fn column_values(t: &Tensor, column: usize) -> (result: Vec<Scalar>)
    requires
        t.wf(),
        t.dims@.len() == 2,
        column < t.dims@[1],
    ensures
        result@ == column_of_rows(*t, column as int),
{
    let rows: usize = t.dims[0];
    let cols: usize = t.dims[1];
    let held: usize = t.values.len();
    let mut result: Vec<Scalar> = Vec::new();
    proof {
        lemma_matrix_size(*t);
    }
    let mut i: usize = 0;
    while i < rows
        invariant
            i <= rows,
            t.wf(),
            t.dims@.len() == 2,
            rows == t.dims@[0],
            cols == t.dims@[1],
            column < cols,
            held == t.values@.len(),
            t.values@.len() == t.dims@[0] * t.dims@[1],
            result@ == column_of_rows(*t, column as int).take(i as int),
        decreases rows - i,
    {
        proof {
            lemma_row_bounds(cols as int, rows as int, i as int);
        }
        result.push(t.values[i * cols + column]);
        proof {
            assert(t.rows()[i as int][column as int] == t.values@[i * cols + column]);
            assert(column_of_rows(*t, column as int).take(i + 1) == column_of_rows(
                *t,
                column as int,
            ).take(i as int).push(t.values@[i * cols + column]));
        }
        i += 1;
    }
    proof {
        assert(column_of_rows(*t, column as int).take(rows as int) == column_of_rows(
            *t,
            column as int,
        ));
    }
    result
}

fn decode(values: Vec<Scalar>, negate: bool) -> (result: Vec<Scalar>)
    ensures
        result@ == decoded(values@, negate),
{
    if negate {
        negated_values(&values)
    } else {
        values
    }
}

/// Why a column cannot be read, if it cannot: it is missing, or the elements are
/// no single or double precision numbers.
pub open spec fn column_fault(t: Tensor, column: usize) -> Option<Seq<char>> {
    if column >= t.dims@[1] {
        Some(
            "narrow invalid args start + len > dim_len: "@ + dims_text(t.dims@)
                + ", dim: 1, start: "@ + crate::text::decimal_digits(column as nat) + ", len:1"@,
        )
    } else if t.dtype == DType::F64 || t.dtype == DType::F32 {
        None
    } else {
        Some("unsupported tensor dtype for prediction extraction: "@ + dtype_text(t.dtype))
    }
}

/// The first of two faults.
pub open spec fn either_fault(a: Option<Seq<char>>, b: Option<Seq<char>>) -> Option<Seq<char>> {
    match a {
        Some(_) => a,
        None => b,
    }
}

/// Why packed values cannot be read as doubles, if they cannot.
pub open spec fn double_fault(t: Tensor) -> Option<Seq<char>> {
    if t.dtype == DType::F64 {
        None
    } else {
        Some("unexpected dtype, expected: F64, got: "@ + dtype_text(t.dtype))
    }
}

/// Why predictions and targets cannot be read, if they cannot.
pub open spec fn extraction_fault(
    predictions: Tensor,
    targets: Tensor,
    encoding: PredictionEncoding,
) -> Option<Seq<char>> {
    match encoding {
        PredictionEncoding::RealColumns { .. } => either_fault(
            column_fault(predictions, 0),
            either_fault(
                column_fault(predictions, 1),
                either_fault(column_fault(targets, 0), column_fault(targets, 1)),
            ),
        ),
        PredictionEncoding::PackedComplex { complex_feature_count, .. } => either_fault(
            unpack_fault(predictions, complex_feature_count),
            either_fault(
                unpack_fault(targets, complex_feature_count),
                either_fault(double_fault(targets), double_fault(predictions)),
            ),
        ),
    }
}

fn check_column(t: &Tensor, column: usize) -> (result: Result<(), CoreError>)
    requires
        t.dims@.len() == 2,
    ensures
        result is Ok <==> column_fault(*t, column) is None,
        result matches Err(e) ==> e.says(column_fault(*t, column)->0),
{
    if column >= t.dims[1] {
        let shape = format_dims(t.dims.as_slice());
        let start = decimal(column as u64);
        let mut message = concat3(
            "narrow invalid args start + len > dim_len: ",
            shape.as_str(),
            ", dim: 1, start: ",
        );
        message.append(start.as_str());
        message.append(", len:1");
        return Err(CoreError::Msg(message));
    }
    match t.dtype {
        DType::F64 => Ok(()),
        DType::F32 => Ok(()),
        other => Err(
            CoreError::Msg(
                concat2(
                    "unsupported tensor dtype for prediction extraction: ",
                    dtype_name(other),
                ),
            ),
        ),
    }
}

fn check_doubles(t: &Tensor) -> (result: Result<(), CoreError>)
    ensures
        result is Ok <==> double_fault(*t) is None,
        result matches Err(e) ==> e.says(double_fault(*t)->0),
{
    match t.dtype {
        DType::F64 => Ok(()),
        other => Err(
            CoreError::Msg(concat2("unexpected dtype, expected: F64, got: ", dtype_name(other))),
        ),
    }
}

impl PredictionVectors {
    /// What an encoding makes of predictions and targets.
    pub open spec fn is_reading_of(
        &self,
        predictions: Tensor,
        targets: Tensor,
        encoding: PredictionEncoding,
    ) -> bool {
        match encoding {
            PredictionEncoding::RealColumns { negate_imag } => {
                &&& self.true_real@ == column_of_rows(targets, 0)
                &&& self.true_imag@ == decoded(column_of_rows(targets, 1), negate_imag)
                &&& self.pred_real@ == column_of_rows(predictions, 0)
                &&& self.pred_imag@ == decoded(column_of_rows(predictions, 1), negate_imag)
            },
            PredictionEncoding::PackedComplex { complex_feature_count, negate_imag } => {
                let n = complex_feature_count as int;
                &&& self.true_real@ == block(targets, 0, n)
                &&& self.true_imag@ == decoded(block(targets, n, n + n), negate_imag)
                &&& self.pred_real@ == block(predictions, 0, n)
                &&& self.pred_imag@ == decoded(block(predictions, n, n + n), negate_imag)
            },
        }
    }
}

/// A block of columns, row after row.
pub open spec fn block(t: Tensor, from: int, to: int) -> Seq<Scalar> {
    t.rows().map_values(|row: Seq<Scalar>| row.subrange(from, to)).flatten()
}

/// The values of a matrix are its rows one after the other.
proof fn lemma_values_are_rows(t: Tensor)
    requires
        t.wf(),
        t.dims@.len() == 2,
    ensures
        t.rows().flatten() == t.values@,
{
    lemma_matrix_size(t);
    let cols = t.dims@[1] as int;
    lemma_rows_flatten(t.values@, cols, t.dims@[0] as nat);
    assert(t.values@.subrange(0, t.dims@[0] * cols) == t.values@);
}

proof fn lemma_rows_flatten(values: Seq<Scalar>, cols: int, count: nat)
    requires
        cols >= 0,
        count * cols <= values.len(),
    ensures
        crate::data::tensor::rows_of(values, cols, count).flatten() == values.subrange(
            0,
            count * cols,
        ),
    decreases count,
{
    let rows = crate::data::tensor::rows_of(values, cols, count);
    rows.lemma_flatten_and_flatten_alt_are_equivalent();
    if count == 0 {
        assert(rows =~= Seq::<Seq<Scalar>>::empty());
        assert(0 * cols == 0);
    } else {
        let fewer = (count - 1) as nat;
        assert(count * cols == fewer * cols + cols && fewer * cols >= 0) by (nonlinear_arith)
            requires
                fewer == count - 1,
                cols >= 0,
                fewer >= 0,
        ;
        lemma_rows_flatten(values, cols, fewer);
        assert(rows.drop_last() =~= crate::data::tensor::rows_of(values, cols, fewer));
        rows.drop_last().lemma_flatten_and_flatten_alt_are_equivalent();
        assert(values.subrange(0, count * cols) =~= values.subrange(0, fewer * cols)
            + values.subrange(fewer * cols, fewer * cols + cols));
    }
}

/// Reads permittivities out of predictions and targets in physical units.
pub fn extract_prediction_vectors(
    predictions: &Tensor,
    targets: &Tensor,
    encoding: PredictionEncoding,
) -> (result: Result<PredictionVectors, CoreError>)
    requires
        predictions.wf(),
        targets.wf(),
        predictions.dims@.len() == 2,
        targets.dims@.len() == 2,
        encoding matches PredictionEncoding::PackedComplex { complex_feature_count, .. }
            ==> complex_feature_count * 2 <= usize::MAX,
    ensures
        result is Ok <==> extraction_fault(*predictions, *targets, encoding) is None,
        result matches Err(e) ==> e.says(extraction_fault(*predictions, *targets, encoding)->0),
        result matches Ok(vectors) ==> vectors.is_reading_of(*predictions, *targets, encoding),
{
    match encoding {
        PredictionEncoding::RealColumns { negate_imag } => {
            if let Err(e) = check_column(predictions, 0) {
                return Err(e);
            }
            if let Err(e) = check_column(predictions, 1) {
                return Err(e);
            }
            if let Err(e) = check_column(targets, 0) {
                return Err(e);
            }
            if let Err(e) = check_column(targets, 1) {
                return Err(e);
            }
            Ok(
                PredictionVectors {
                    true_real: column_values(targets, 0),
                    true_imag: decode(column_values(targets, 1), negate_imag),
                    pred_real: column_values(predictions, 0),
                    pred_imag: decode(column_values(predictions, 1), negate_imag),
                },
            )
        },
        PredictionEncoding::PackedComplex { complex_feature_count, negate_imag } => {
            let p = match unpack_complex_features(predictions, complex_feature_count) {
                Ok(p) => p,
                Err(e) => return Err(e),
            };
            let t = match unpack_complex_features(targets, complex_feature_count) {
                Ok(t) => t,
                Err(e) => return Err(e),
            };
            if let Err(e) = check_doubles(targets) {
                return Err(e);
            }
            if let Err(e) = check_doubles(predictions) {
                return Err(e);
            }
            proof {
                lemma_values_are_rows(p.real);
                lemma_values_are_rows(p.imag);
                lemma_values_are_rows(t.real);
                lemma_values_are_rows(t.imag);
            }
            Ok(
                PredictionVectors {
                    true_real: t.real.values,
                    true_imag: decode(t.imag.values, negate_imag),
                    pred_real: p.real.values,
                    pred_imag: decode(p.imag.values, negate_imag),
                },
            )
        },
    }
}

/// Predictions with their real parts first and their imaginary parts behind, as
/// the decoder reads them.
pub fn packed_predictions(predictions: &ComplexTensor) -> (result: Tensor)
    requires
        predictions.wf(),
        predictions.real.dims@.len() == 2,
        predictions.imag.dims@ == predictions.real.dims@,
        predictions.real.dims@[1] * 2 <= usize::MAX,
    ensures
        result.wf(),
        result.dims@ == seq![
            predictions.real.dims@[0],
            (predictions.real.dims@[1] * 2) as usize,
        ],
        result.rows() == Seq::new(
            predictions.real.dims@[0] as nat,
            |r: int| predictions.real.rows()[r] + predictions.imag.rows()[r],
        ),
        result.dtype == predictions.real.dtype,
        result.device == predictions.real.device,
{
    join_columns(&predictions.real, &predictions.imag)
}

/// Reads predictions that are already in physical units, one complex column, as
/// the decoder of an encoding with one complex number per row does.
pub fn evaluate_from_complex_predictions(
    predictions: &ComplexTensor,
    targets: &Tensor,
    encoding: PredictionEncoding,
) -> (result: Result<PredictionVectors, CoreError>)
    requires
        predictions.wf(),
        predictions.real.dims@.len() == 2,
        predictions.real.dims@[1] == 1,
        predictions.imag.dims@ == predictions.real.dims@,
        predictions.real.dtype == DType::F64,
        targets.wf(),
        targets.dims@.len() == 2,
        encoding matches PredictionEncoding::PackedComplex { complex_feature_count, .. }
            ==> complex_feature_count == 1,
    ensures
        result is Ok <==> target_fault(*targets, encoding) is None,
        result matches Err(e) ==> e.says(target_fault(*targets, encoding)->0),
        result matches Ok(vectors) ==> {
            let negate = negates_imag(encoding);
            &&& vectors.pred_real@ == predictions.real.values@
            &&& vectors.pred_imag@ == decoded(predictions.imag.values@, negate)
            &&& vectors.true_real@ == column_of_rows(*targets, 0)
            &&& vectors.true_imag@ == decoded(column_of_rows(*targets, 1), negate)
        },
{
    let packed = packed_predictions(predictions);
    let result = extract_prediction_vectors(&packed, targets, encoding);
    proof {
        lemma_one_column(predictions.real);
        lemma_one_column(predictions.imag);
        assert(column_of_rows(packed, 0) =~= predictions.real.values@);
        assert(column_of_rows(packed, 1) =~= predictions.imag.values@);
        if encoding is PackedComplex {
            lemma_block_of_one(packed, 0);
            lemma_block_of_one(packed, 1);
            if targets.dims@[1] == 2 {
                lemma_block_of_one(*targets, 0);
                lemma_block_of_one(*targets, 1);
            }
        }
    }
    result
}

/// Whether an encoding stores imaginary parts with the opposite sign.
pub open spec fn negates_imag(encoding: PredictionEncoding) -> bool {
    match encoding {
        PredictionEncoding::RealColumns { negate_imag } => negate_imag,
        PredictionEncoding::PackedComplex { negate_imag, .. } => negate_imag,
    }
}

/// Why targets with one complex number per row cannot be read, if they cannot.
pub open spec fn target_fault(targets: Tensor, encoding: PredictionEncoding) -> Option<Seq<char>> {
    match encoding {
        PredictionEncoding::RealColumns { .. } => either_fault(
            column_fault(targets, 0),
            column_fault(targets, 1),
        ),
        PredictionEncoding::PackedComplex { .. } => either_fault(
            unpack_fault(targets, 1),
            double_fault(targets),
        ),
    }
}

proof fn lemma_one_column(t: Tensor)
    requires
        t.wf(),
        t.dims@.len() == 2,
        t.dims@[1] == 1,
    ensures
        t.values@.len() == t.dims@[0],
        forall|r: int| 0 <= r < t.dims@[0] ==> #[trigger] t.rows()[r] == seq![t.values@[r]],
{
    lemma_matrix_size(t);
    assert forall|r: int| 0 <= r < t.dims@[0] implies #[trigger] t.rows()[r] == seq![
        t.values@[r],
    ] by {
        assert(t.rows()[r] =~= seq![t.values@[r]]);
    }
}

proof fn lemma_block_of_one(t: Tensor, column: int)
    requires
        t.wf(),
        t.dims@.len() == 2,
        0 <= column < t.dims@[1],
    ensures
        block(t, column, column + 1) == column_of_rows(t, column),
{
    lemma_matrix_size(t);
    let cut = t.rows().map_values(|row: Seq<Scalar>| row.subrange(column, column + 1));
    assert forall|r: int| 0 <= r < cut.len() implies (#[trigger] cut[r]) == seq![
        column_of_rows(t, column)[r],
    ] by {
        lemma_row_bounds(t.dims@[1] as int, t.dims@[0] as int, r);
        assert(cut[r] =~= seq![column_of_rows(t, column)[r]]);
    }
    lemma_flatten_singles(cut, column_of_rows(t, column));
}

proof fn lemma_flatten_singles(lists: Seq<Seq<Scalar>>, items: Seq<Scalar>)
    requires
        lists.len() == items.len(),
        forall|i: int| 0 <= i < lists.len() ==> #[trigger] lists[i] == seq![items[i]],
    ensures
        lists.flatten() == items,
    decreases lists.len(),
{
    lists.lemma_flatten_and_flatten_alt_are_equivalent();
    if lists.len() == 0 {
        assert(items =~= Seq::<Scalar>::empty());
    } else {
        let shorter = lists.drop_last();
        assert forall|i: int| 0 <= i < shorter.len() implies #[trigger] shorter[i] == seq![
            items.drop_last()[i],
        ] by {
            assert(lists[i] == seq![items[i]]);
        }
        lemma_flatten_singles(shorter, items.drop_last());
        shorter.lemma_flatten_and_flatten_alt_are_equivalent();
        assert(lists.last() == seq![items.last()]);
        assert(items =~= items.drop_last() + seq![items.last()]);
    }
}

/// The batches of one pass, put together again.
pub fn concat_tensors(tensors: &Vec<Tensor>, label: &str) -> (result: Result<Tensor, CoreError>)
    requires
        equally_wide(tensors@),
        all_rows(tensors@).len() <= usize::MAX,
    ensures
        result is Ok <==> tensors@.len() > 0,
        result matches Ok(joined) ==> {
            &&& joined.wf()
            &&& joined.dims@ == seq![all_rows(tensors@).len() as usize, tensors@[0].dims@[1]]
            &&& joined.rows() == all_rows(tensors@)
            &&& joined.dtype == tensors@[0].dtype
            &&& joined.device == tensors@[0].device
        },
        result matches Err(e) ==> e.says("expected at least one "@ + label@ + " batch"@),
{
    if tensors.len() == 0 {
        return Err(CoreError::Msg(concat3("expected at least one ", label, " batch")));
    }
    Ok(join_rows(tensors))
}

/// Everything that is known of a list of predictions.
#[derive(Debug)]
pub struct PredictionEvaluation {
    pub r2_scores: ComplexR2Scores,
    pub rel_error: RelativeErrorMetrics,
    pub ok_at_1: ClassificationResult,
    pub ok_at_10: ClassificationResult,
    pub vectors: PredictionVectors,
}

/// Summarizes predictions. `errors` are their relative errors in percent.
pub fn summarize_prediction_vectors(
    vectors: PredictionVectors,
    errors: Vec<Scalar>,
    r2_scores: ComplexR2Scores,
) -> (result: PredictionEvaluation)
    ensures
        result.vectors == vectors,
        result.r2_scores == r2_scores,
        result.rel_error.errors@ == errors@,
        result.rel_error.n_samples == errors@.len(),
        result.rel_error.mean_error == mean_rule(errors@),
        result.rel_error.median_error == median_rule(errors@),
        errors@.len() == 0 ==> result.rel_error.max_error.bits == 0
            && result.rel_error.min_error.bits == 0,
        errors@.len() > 0 ==> is_largest(result.rel_error.max_error, errors@) && is_smallest(
            result.rel_error.min_error,
            errors@,
        ),
        result.ok_at_1.classifies(errors@, Scalar { bits: ONE_BITS }),
        result.ok_at_10.classifies(errors@, Scalar { bits: TEN_BITS }),
{
    let rel_error = summarize_relative_errors(errors);
    let ok_at_1 = classify_predictions(rel_error.errors.as_slice(), Scalar::from_bits(ONE_BITS));
    let ok_at_10 = classify_predictions(rel_error.errors.as_slice(), Scalar::from_bits(TEN_BITS));
    PredictionEvaluation { r2_scores, rel_error, ok_at_1, ok_at_10, vectors }
}

/// Which classification is meant by a threshold: the first whose distance from it
/// is less than 0.01. `distances` are the absolute differences.
pub fn find_threshold(distances: &[Scalar]) -> (result: Option<usize>)
    ensures
        result matches Some(i) ==> i < distances@.len() && distances@[i as int].lt(
            Scalar { bits: NEARNESS_BITS },
        ) && (forall|k: int|
            0 <= k < i ==> !(#[trigger] distances@[k]).lt(Scalar { bits: NEARNESS_BITS })),
        result is None ==> (forall|k: int|
            0 <= k < distances@.len() ==> !(#[trigger] distances@[k]).lt(
                Scalar { bits: NEARNESS_BITS },
            )),
{
    let nearness = Scalar::from_bits(NEARNESS_BITS);
    let mut i: usize = 0;
    while i < distances.len()
        invariant
            i <= distances@.len(),
            nearness == (Scalar { bits: NEARNESS_BITS }),
            forall|k: int| 0 <= k < i ==> !(#[trigger] distances@[k]).lt(nearness),
        decreases distances@.len() - i,
    {
        if distances[i].less_than(nearness) {
            return Some(i);
        }
        i += 1;
    }
    None
}

/// The indices of the samples that come from a dense patch, or of those that do
/// not, ascending.
pub open spec fn indices_of(samples: Seq<PermittivitySample>, dense_patch: bool) -> Seq<usize>
    decreases samples.len(),
{
    if samples.len() == 0 {
        Seq::<usize>::empty()
    } else {
        let before = indices_of(samples.drop_last(), dense_patch);
        if samples.last().is_dense_patch == dense_patch {
            before.push((samples.len() - 1) as usize)
        } else {
            before
        }
    }
}

/// An index is listed exactly when its sample is of that kind, and only once: every
/// sample is on exactly one of the two maps.
pub proof fn samples_are_on_one_map(samples: Seq<PermittivitySample>, dense_patch: bool)
    requires
        samples.len() <= usize::MAX,
    ensures
        forall|k: usize|
            k < samples.len() ==> (#[trigger] indices_of(samples, dense_patch).contains(k)
                <==> samples[k as int].is_dense_patch == dense_patch),
        within(indices_of(samples, dense_patch), samples.len() as int),
        indices_of(samples, dense_patch).no_duplicates(),
        indices_of(samples, true).len() + indices_of(samples, false).len() == samples.len(),
    decreases samples.len(),
{
    if samples.len() > 0 {
        let shorter = samples.drop_last();
        samples_are_on_one_map(shorter, dense_patch);
        let before = indices_of(shorter, dense_patch);
        let last = (samples.len() - 1) as usize;
        let all = indices_of(samples, dense_patch);
        assert forall|k: usize| k < samples.len() implies (#[trigger] all.contains(k)
            <==> samples[k as int].is_dense_patch == dense_patch) by {
            if k < last {
                assert(shorter[k as int] == samples[k as int]);
                assert(before.contains(k) <==> samples[k as int].is_dense_patch == dense_patch);
                if before.contains(k) {
                    let i = choose|i: int| 0 <= i < before.len() && before[i] == k;
                    assert(all[i] == k);
                }
                if all.contains(k) {
                    let i = choose|i: int| 0 <= i < all.len() && all[i] == k;
                    assert(before[i] == k);
                }
            } else {
                if samples.last().is_dense_patch == dense_patch {
                    assert(all[all.len() - 1] == k);
                } else {
                    assert(all == before);
                    if all.contains(k) {
                        let i = choose|i: int| 0 <= i < all.len() && all[i] == k;
                        assert(before[i] < shorter.len());
                    }
                }
            }
        }
        assert forall|i: int| 0 <= i < all.len() implies #[trigger] all[i] < samples.len() by {
            if i < before.len() {
                assert(before[i] < shorter.len());
            }
        }
        assert forall|i: int, j: int| 0 <= i < all.len() && 0 <= j < all.len() && i
            != j implies #[trigger] all[i] != #[trigger] all[j] by {
            if i < before.len() {
                assert(before[i] < shorter.len());
            }
            if j < before.len() {
                assert(before[j] < shorter.len());
            }
        }
    }
}

/// The indices of the samples that come from a dense patch, or of those that do
/// not.
pub fn partition_indices(samples: &[PermittivitySample], dense_patch: bool) -> (result: Vec<usize>)
    ensures
        result@ == indices_of(samples@, dense_patch),
        within(result@, samples@.len() as int),
{
    let mut result: Vec<usize> = Vec::new();
    let mut i: usize = 0;
    proof {
        assert(samples@.take(0) == Seq::<PermittivitySample>::empty());
    }
    while i < samples.len()
        invariant
            i <= samples@.len(),
            result@ == indices_of(samples@.take(i as int), dense_patch),
            within(result@, i as int),
        decreases samples@.len() - i,
    {
        proof {
            assert(samples@.take(i + 1).drop_last() == samples@.take(i as int));
        }
        if samples[i].is_dense_patch == dense_patch {
            result.push(i);
        }
        i += 1;
    }
    proof {
        assert(samples@.take(samples@.len() as int) == samples@);
    }
    result
}

/// A classification without a map.
#[derive(Clone, Copy, Debug, PartialEq, Eq, Structural)]
pub struct MaskSummary {
    pub threshold: Scalar,
    pub ok_count: usize,
    pub total: usize,
}

/// The maps of an evaluation. The bulk map has the classifications with it; where
/// there is none, their summaries over all samples take its place.
#[derive(Debug)]
pub struct EvaluationCharts {
    pub bulk: Option<GridChart>,
    pub summaries: Option<Vec<MaskSummary>>,
    pub patch: Option<GridChart>,
}

impl EvaluationCharts {
    /// These are the maps of an evaluation: one of the bulk and one of the dense
    /// patch, where their samples form a grid. Where the bulk has no map, the
    /// classifications are summarized over all samples.
    pub open spec fn are_charts_of(
        &self,
        samples: Seq<PermittivitySample>,
        errors: Seq<Scalar>,
        classifications: Seq<ClassificationResult>,
    ) -> bool {
        &&& self.bulk is Some <==> is_charted(samples, false)
        &&& self.patch is Some <==> is_charted(samples, true)
        &&& self.bulk matches Some(chart) ==> chart.is_chart_of(
            indices_of(samples, false),
            samples,
            errors,
            classifications,
        )
        &&& self.patch matches Some(chart) ==> chart.is_chart_of(
            indices_of(samples, true),
            samples,
            errors,
            classifications,
        )
        &&& self.summaries is Some <==> self.bulk is None
        &&& self.summaries matches Some(list) ==> {
            &&& list@.len() == classifications.len()
            &&& forall|c: int|
                0 <= c < list@.len() ==> {
                    &&& (#[trigger] list@[c]).threshold == classifications[c].threshold
                    &&& list@[c].ok_count == classifications[c].ok_count
                    &&& list@[c].total == classifications[c].ok_mask@.len()
                }
        }
    }
}

fn summaries_of(classifications: &Vec<ClassificationResult>) -> (result: Vec<MaskSummary>)
    ensures
        result@.len() == classifications@.len(),
        forall|c: int|
            0 <= c < result@.len() ==> {
                &&& (#[trigger] result@[c]).threshold == classifications@[c].threshold
                &&& result@[c].ok_count == classifications@[c].ok_count
                &&& result@[c].total == classifications@[c].ok_mask@.len()
            },
{
    let mut result: Vec<MaskSummary> = Vec::new();
    let mut c: usize = 0;
    while c < classifications.len()
        invariant
            c <= classifications@.len(),
            result@.len() == c,
            forall|k: int|
                0 <= k < c ==> {
                    &&& (#[trigger] result@[k]).threshold == classifications@[k].threshold
                    &&& result@[k].ok_count == classifications@[k].ok_count
                    &&& result@[k].total == classifications@[k].ok_mask@.len()
                },
        decreases classifications@.len() - c,
    {
        let classification = &classifications[c];
        result.push(
            MaskSummary {
                threshold: classification.threshold,
                ok_count: classification.ok_count,
                total: classification.ok_mask.len(),
            },
        );
        c += 1;
    }
    result
}

/// The chosen samples form a grid.
pub open spec fn is_charted(samples: Seq<PermittivitySample>, dense_patch: bool) -> bool {
    let chosen = picks(indices_of(samples, dense_patch), samples);
    chosen.len() > 0 && forms_grid(eps_primes(chosen), eps_double_primes(chosen))
}

/// The bulk and the dense-patch map of an evaluation, each where its samples form
/// a grid.
pub fn generate_evaluation_plots(
    errors: &[Scalar],
    classifications: &Vec<ClassificationResult>,
    test_samples: &[PermittivitySample],
) -> (result: EvaluationCharts)
    requires
        errors@.len() >= test_samples@.len(),
        forall|c: int|
            0 <= c < classifications@.len() ==> (#[trigger] classifications@[c]).ok_mask@.len()
                >= test_samples@.len(),
    ensures
        result.are_charts_of(test_samples@, errors@, classifications@),
{
    let bulk_indices = partition_indices(test_samples, false);
    let patch_indices = partition_indices(test_samples, true);
    let bulk = build_grid_chart(&bulk_indices, test_samples, errors, classifications);
    let patch = build_grid_chart(&patch_indices, test_samples, errors, classifications);
    let summaries = match &bulk {
        Some(_) => None,
        None => Some(summaries_of(classifications)),
    };
    EvaluationCharts { bulk, summaries, patch }
}

/// Reading predictions pairs the rows: the permittivity of row `r` is read from that row of
/// the targets, and what was predicted from that row of the predictions. In either
/// encoding of one number per row the real part is in the first column and the imaginary
/// part in the second, whose sign is turned where the encoding says so.
pub proof fn readings_pair_predictions_with_targets(
    vectors: PredictionVectors,
    predictions: Tensor,
    targets: Tensor,
    encoding: PredictionEncoding,
    r: int,
)
    requires
        vectors.is_reading_of(predictions, targets, encoding),
        predictions.wf(),
        targets.wf(),
        predictions.dims@.len() == 2,
        targets.dims@.len() == 2,
        predictions.dims@[1] >= 2,
        targets.dims@[1] >= 2,
        encoding matches PredictionEncoding::PackedComplex { complex_feature_count, .. }
            ==> complex_feature_count == 1,
        0 <= r < targets.dims@[0],
        r < predictions.dims@[0],
    ensures
        ({
            let negate = match encoding {
                PredictionEncoding::RealColumns { negate_imag } => negate_imag,
                PredictionEncoding::PackedComplex { negate_imag, .. } => negate_imag,
            };
            &&& vectors.true_real@.len() == targets.dims@[0]
            &&& vectors.true_imag@.len() == targets.dims@[0]
            &&& vectors.pred_real@.len() == predictions.dims@[0]
            &&& vectors.pred_imag@.len() == predictions.dims@[0]
            &&& vectors.true_real@[r] == targets.rows()[r][0]
            &&& vectors.pred_real@[r] == predictions.rows()[r][0]
            &&& vectors.true_imag@[r] == if negate {
                targets.rows()[r][1].flipped()
            } else {
                targets.rows()[r][1]
            }
            &&& vectors.pred_imag@[r] == if negate {
                predictions.rows()[r][1].flipped()
            } else {
                predictions.rows()[r][1]
            }
        }),
{
    if encoding is PackedComplex {
        lemma_block_of_one(targets, 0);
        lemma_block_of_one(targets, 1);
        lemma_block_of_one(predictions, 0);
        lemma_block_of_one(predictions, 1);
    }
}

/// Predictions can be read exactly where their columns, and those of the targets, are
/// there and hold numbers of a kind that the encoding reads.
pub proof fn only_matching_tensors_are_read(
    predictions: Tensor,
    targets: Tensor,
    encoding: PredictionEncoding,
)
    ensures
        encoding is RealColumns ==> (extraction_fault(predictions, targets, encoding) is None
            <==> {
            &&& predictions.dims@[1] >= 2
            &&& targets.dims@[1] >= 2
            &&& (predictions.dtype is F64 || predictions.dtype is F32)
            &&& (targets.dtype is F64 || targets.dtype is F32)
        }),
        encoding matches PredictionEncoding::PackedComplex { complex_feature_count, .. } ==> (
        extraction_fault(predictions, targets, encoding) is None <==> {
            &&& predictions.dims@.len() == 2
            &&& targets.dims@.len() == 2
            &&& predictions.dims@[1] == 2 * complex_feature_count
            &&& targets.dims@[1] == 2 * complex_feature_count
            &&& predictions.dtype is F64
            &&& targets.dtype is F64
        }),
{
}

/// The samples of a map are listed in their order.
pub proof fn maps_keep_the_order(
    samples: Seq<PermittivitySample>,
    dense_patch: bool,
    i: int,
    j: int,
)
    requires
        samples.len() <= usize::MAX,
        0 <= i < j < indices_of(samples, dense_patch).len(),
    ensures
        indices_of(samples, dense_patch)[i] < indices_of(samples, dense_patch)[j],
    decreases samples.len(),
{
    let shorter = samples.drop_last();
    samples_are_on_one_map(shorter, dense_patch);
    let before = indices_of(shorter, dense_patch);
    if j < before.len() {
        maps_keep_the_order(shorter, dense_patch, i, j);
    } else {
        assert(before[i] < shorter.len());
    }
}

/// The bulk has a map exactly where its samples form a grid, and the dense patch where its
/// own do; where the bulk has none, every classification is summed up over all samples.
pub proof fn maps_are_of_bulk_and_patch(
    charts: EvaluationCharts,
    samples: Seq<PermittivitySample>,
    errors: Seq<Scalar>,
    classifications: Seq<ClassificationResult>,
    c: int,
)
    requires
        charts.are_charts_of(samples, errors, classifications),
    ensures
        charts.bulk is Some <==> forms_grid(
            eps_primes(picks(indices_of(samples, false), samples)),
            eps_double_primes(picks(indices_of(samples, false), samples)),
        ),
        charts.patch is Some <==> forms_grid(
            eps_primes(picks(indices_of(samples, true), samples)),
            eps_double_primes(picks(indices_of(samples, true), samples)),
        ),
        charts.bulk is Some ==> charts.summaries is None && charts.bulk->0.is_chart_of(
            indices_of(samples, false),
            samples,
            errors,
            classifications,
        ),
        charts.patch is Some ==> charts.patch->0.is_chart_of(
            indices_of(samples, true),
            samples,
            errors,
            classifications,
        ),
        charts.bulk is None ==> (charts.summaries matches Some(list) && list@.len()
            == classifications.len() && (0 <= c < list@.len() ==> list@[c].threshold
            == classifications[c].threshold && list@[c].ok_count == classifications[c].ok_count
            && list@[c].total == classifications[c].ok_mask@.len())),
{
    let bulk = picks(indices_of(samples, false), samples);
    let patch = picks(indices_of(samples, true), samples);
    assert(eps_primes(bulk).len() == bulk.len());
    assert(eps_primes(patch).len() == patch.len());
}

/// Targets by themselves are read under the conditions under which they are read with
/// predictions; packed targets hold one complex number.
pub proof fn only_matching_targets_are_read(targets: Tensor, encoding: PredictionEncoding)
    ensures
        encoding is RealColumns ==> (target_fault(targets, encoding) is None <==> {
            &&& targets.dims@[1] >= 2
            &&& (targets.dtype is F64 || targets.dtype is F32)
        }),
        encoding is PackedComplex ==> (target_fault(targets, encoding) is None <==> {
            &&& targets.dims@.len() == 2
            &&& targets.dims@[1] == 2
            &&& targets.dtype is F64
        }),
{
}

} // verus!

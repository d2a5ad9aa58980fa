//! Evaluation of permittivity predictions: classification by error threshold,
//! and the order statistics of relative errors.

use super::error::CoreError;
use crate::scalar::{Scalar, INFINITY_BITS, ONE_BITS};
use crate::sort::{
    ascending, count_after, count_before, places_count_the_values, sort_scalars,
    sorting_only_reorders,
};
use crate::text::{concat2, decimal, decimal_digits};
use vstd::prelude::*;
use vstd::string::StringExecFns;

verus! {

/// The pattern of the quiet NaN that stands for an undefined statistic.
pub const NAN_BITS: u64 = 0x7ff8_0000_0000_0000;

/// A prediction with this relative error is good enough for the threshold.
pub open spec fn is_ok(error: Scalar, threshold: Scalar) -> bool {
    error.finite() && error.le(threshold)
}

/// How many entries of a mask are set.
pub open spec fn count_set(mask: Seq<bool>) -> nat
    decreases mask.len(),
{
    if mask.len() == 0 {
        0
    } else {
        count_set(mask.drop_last()) + if mask.last() {
            1nat
        } else {
            0nat
        }
    }
}

/// The mask that tells which errors are within `threshold`.
pub open spec fn ok_mask(errors: Seq<Scalar>, threshold: Scalar) -> Seq<bool> {
    errors.map_values(|e: Scalar| is_ok(e, threshold))
}

/// Which predictions are within one threshold.
///
/// The share of good predictions is `ok_count` out of the length of `ok_mask`.
#[derive(Debug)]
pub struct ClassificationResult {
    /// True for each prediction that is good enough.
    pub ok_mask: Vec<bool>,
    /// How many are.
    pub ok_count: usize,
    /// The threshold that they were held against.
    pub threshold: Scalar,
}

impl ClassificationResult {
    /// This is the classification of `errors` by `threshold`.
    pub open spec fn classifies(&self, errors: Seq<Scalar>, threshold: Scalar) -> bool {
        &&& self.ok_mask@ == ok_mask(errors, threshold)
        &&& self.ok_count == count_set(self.ok_mask@)
        &&& self.threshold == threshold
    }
}

/// Classifies predictions as good when their relative error is within the
/// threshold.
#[must_use]
pub fn classify_predictions(errors: &[Scalar], threshold: Scalar) -> (result: ClassificationResult)
    ensures
        result.classifies(errors@, threshold),
{
    let mut mask: Vec<bool> = Vec::new();
    let mut count: usize = 0;
    let mut i: usize = 0;
    while i < errors.len()
        invariant
            i <= errors@.len(),
            mask@ == ok_mask(errors@.take(i as int), threshold),
            count == count_set(mask@),
            count <= i,
        decreases errors@.len() - i,
    {
        let ok: bool = errors[i].is_finite() && errors[i].at_most(threshold);
        let ghost before = mask@;
        mask.push(ok);
        proof {
            assert(ok_mask(errors@.take(i + 1), threshold) == ok_mask(
                errors@.take(i as int),
                threshold,
            ).push(ok));
            assert(mask@.drop_last() == before);
        }
        if ok {
            count += 1;
        }
        i += 1;
    }
    proof {
        assert(errors@.take(errors@.len() as int) == errors@);
    }
    ClassificationResult { ok_mask: mask, ok_count: count, threshold }
}

/// Classifies against each of several thresholds.
#[must_use]
pub fn classify_multi_threshold(errors: &[Scalar], thresholds: &[Scalar]) -> (result: Vec<
    ClassificationResult,
>)
    ensures
        result@.len() == thresholds@.len(),
        forall|k: int|
            0 <= k < result@.len() ==> (#[trigger] result@[k]).classifies(errors@, thresholds@[k]),
{
    let mut result: Vec<ClassificationResult> = Vec::new();
    let mut k: usize = 0;
    while k < thresholds.len()
        invariant
            k <= thresholds@.len(),
            result@.len() == k,
            forall|m: int|
                0 <= m < k ==> (#[trigger] result@[m]).classifies(errors@, thresholds@[m]),
        decreases thresholds@.len() - k,
    {
        result.push(classify_predictions(errors, thresholds[k]));
        k += 1;
    }
    result
}

/// A wider threshold keeps every prediction that a narrower one accepts, and so
/// never lowers the count.
pub proof fn classification_is_monotone(errors: Seq<Scalar>, narrow: Scalar, wide: Scalar)
    requires
        narrow.le(wide),
    ensures
        forall|i: int|
            0 <= i < errors.len() && #[trigger] ok_mask(errors, narrow)[i] ==> ok_mask(
                errors,
                wide,
            )[i],
        count_set(ok_mask(errors, narrow)) <= count_set(ok_mask(errors, wide)),
    decreases errors.len(),
{
    if errors.len() > 0 {
        classification_is_monotone(errors.drop_last(), narrow, wide);
        assert(ok_mask(errors, narrow).drop_last() == ok_mask(errors.drop_last(), narrow));
        assert(ok_mask(errors, wide).drop_last() == ok_mask(errors.drop_last(), wide));
    }
}

/// A prediction counts as good exactly where its error is finite and at most the
/// threshold, and the count is that of the good ones.
pub proof fn good_predictions_are_within_the_threshold(errors: Seq<Scalar>, threshold: Scalar)
    ensures
        ok_mask(errors, threshold).len() == errors.len(),
        forall|i: int|
            0 <= i < errors.len() ==> #[trigger] ok_mask(errors, threshold)[i] == (
            errors[i].finite() && errors[i].le(threshold)),
        count_set(ok_mask(errors, threshold)) == errors.filter(
            |e: Scalar| e.finite() && e.le(threshold),
        ).len(),
    decreases errors.len(),
{
    reveal(Seq::filter);
    if errors.len() > 0 {
        good_predictions_are_within_the_threshold(errors.drop_last(), threshold);
        assert(ok_mask(errors, threshold).drop_last() =~= ok_mask(errors.drop_last(), threshold));
    }
}

/// Good predictions are never more than all predictions.
pub proof fn ok_count_is_bounded(mask: Seq<bool>)
    ensures
        count_set(mask) <= mask.len(),
    decreases mask.len(),
{
    if mask.len() > 0 {
        ok_count_is_bounded(mask.drop_last());
    }
}

/// How the mean of a list of errors comes about.
#[derive(Clone, Copy, Debug, PartialEq, Eq, Structural)]
pub enum Mean {
    /// The mean is this value whatever the errors add up to.
    Known(Scalar),
    /// The errors are finite and have an arithmetic mean.
    Arithmetic,
}

/// How the median of a list of errors comes about.
#[derive(Clone, Copy, Debug, PartialEq, Eq, Structural)]
pub enum Median {
    /// The median is this value.
    Known(Scalar),
    /// The median lies halfway between these two.
    Halfway(Scalar, Scalar),
}

/// The median parts the values in halves. One value has no more than half of the others
/// on either side; of two values, the lower has fewer than half before it and no more
/// than half after it, and the upper has fewer than half after it and no more than half
/// before it.
pub open spec fn parts_in_halves(median: Median, values: Seq<Scalar>) -> bool {
    let half = values.len() / 2;
    match median {
        Median::Known(middle) => {
            &&& values.len() % 2 == 1
            &&& values.contains(middle)
            &&& count_before(values, middle) <= half
            &&& count_after(values, middle) <= half
        },
        Median::Halfway(lower, upper) => {
            &&& values.len() % 2 == 0
            &&& values.contains(lower)
            &&& values.contains(upper)
            &&& count_before(values, lower) < half
            &&& count_after(values, lower) <= half
            &&& count_after(values, upper) < half
            &&& count_before(values, upper) <= half
        },
    }
}

/// Some error is a NaN.
pub open spec fn has_nan(errors: Seq<Scalar>) -> bool {
    exists|i: int| 0 <= i < errors.len() && (#[trigger] errors[i]).nan()
}

/// Some error is infinite.
pub open spec fn has_infinite(errors: Seq<Scalar>) -> bool {
    exists|i: int|
        0 <= i < errors.len() && (#[trigger] errors[i]).magnitude() == INFINITY_BITS
}

/// Zero for no errors, NaN where one is, infinity where one is infinite, else the
/// arithmetic mean.
pub open spec fn mean_rule(errors: Seq<Scalar>) -> Mean {
    if errors.len() == 0 {
        Mean::Known(Scalar { bits: 0 })
    } else if has_nan(errors) {
        Mean::Known(Scalar { bits: NAN_BITS })
    } else if has_infinite(errors) {
        Mean::Known(Scalar { bits: INFINITY_BITS })
    } else {
        Mean::Arithmetic
    }
}

/// Zero for no errors, NaN where one is, else the middle of the ascending errors.
pub open spec fn median_rule(errors: Seq<Scalar>) -> Median {
    let sorted = ascending(errors);
    let middle = (errors.len() / 2) as int;
    if errors.len() == 0 {
        Median::Known(Scalar { bits: 0 })
    } else if has_nan(errors) {
        Median::Known(Scalar { bits: NAN_BITS })
    } else if errors.len() % 2 == 0 {
        Median::Halfway(sorted[middle - 1], sorted[middle])
    } else {
        Median::Known(sorted[middle])
    }
}

/// `value` is among `errors`, and none of them comes after it in the total order.
pub open spec fn is_largest(value: Scalar, errors: Seq<Scalar>) -> bool {
    errors.contains(value) && (forall|i: int|
        0 <= i < errors.len() ==> (#[trigger] errors[i]).total_rank() <= value.total_rank())
}

/// `value` is among `errors`, and none of them comes before it in the total order.
pub open spec fn is_smallest(value: Scalar, errors: Seq<Scalar>) -> bool {
    errors.contains(value) && (forall|i: int|
        0 <= i < errors.len() ==> (#[trigger] errors[i]).total_rank() >= value.total_rank())
}

/// Statistics of the relative errors of a list of predictions.
#[derive(Debug)]
pub struct RelativeErrorMetrics {
    /// The relative error of each prediction, in percent.
    pub errors: Vec<Scalar>,
    /// How many predictions there are.
    pub n_samples: usize,
    /// Their mean error.
    pub mean_error: Mean,
    /// Their median error.
    pub median_error: Median,
    /// The largest error; zero where there is none.
    pub max_error: Scalar,
    /// The smallest error; zero where there is none.
    pub min_error: Scalar,
}

fn any_nan(errors: &[Scalar]) -> (result: bool)
    ensures
        result == has_nan(errors@),
{
    let mut i: usize = 0;
    while i < errors.len()
        invariant
            i <= errors@.len(),
            forall|k: int| 0 <= k < i ==> !(#[trigger] errors@[k]).nan(),
        decreases errors@.len() - i,
    {
        if errors[i].is_nan() {
            return true;
        }
        i += 1;
    }
    false
}

fn any_infinite(errors: &[Scalar]) -> (result: bool)
    ensures
        result == has_infinite(errors@),
{
    let mut i: usize = 0;
    while i < errors.len()
        invariant
            i <= errors@.len(),
            forall|k: int|
                0 <= k < i ==> (#[trigger] errors@[k]).magnitude() != INFINITY_BITS,
        decreases errors@.len() - i,
    {
        if !errors[i].is_nan() && !errors[i].is_finite() {
            return true;
        }
        i += 1;
    }
    false
}

/// The largest of `values` in the total order; zero where there is none.
pub fn largest(values: &[Scalar]) -> (result: Scalar)
    ensures
        values@.len() == 0 ==> result == (Scalar { bits: 0 }),
        values@.len() > 0 ==> is_largest(result, values@),
{
    if values.len() == 0 {
        return Scalar::zero();
    }
    let mut best = values[0];
    let mut i: usize = 1;
    while i < values.len()
        invariant
            1 <= i <= values@.len(),
            values@.contains(best),
            forall|k: int| 0 <= k < i ==> (#[trigger] values@[k]).total_rank() <= best.total_rank(),
        decreases values@.len() - i,
    {
        if !values[i].precedes(best) {
            best = values[i];
        }
        i += 1;
    }
    best
}

/// The smallest of `values` in the total order; zero where there is none.
pub fn smallest(values: &[Scalar]) -> (result: Scalar)
    ensures
        values@.len() == 0 ==> result == (Scalar { bits: 0 }),
        values@.len() > 0 ==> is_smallest(result, values@),
{
    if values.len() == 0 {
        return Scalar::zero();
    }
    let mut best = values[0];
    let mut i: usize = 1;
    while i < values.len()
        invariant
            1 <= i <= values@.len(),
            values@.contains(best),
            forall|k: int| 0 <= k < i ==> (#[trigger] values@[k]).total_rank() >= best.total_rank(),
        decreases values@.len() - i,
    {
        if values[i].precedes(best) {
            best = values[i];
        }
        i += 1;
    }
    best
}

/// The median of errors without a NaN is in the middle of them. Of an odd number it is
/// an error with no more than half of the others on either side. Of an even number it lies
/// halfway between two errors that part the list in halves: fewer than half come before
/// the lower one and no more than half after it, fewer than half after the upper one and
/// no more than half before it, and none between the two.
pub proof fn medians_part_the_errors_in_halves(errors: Seq<Scalar>)
    requires
        errors.len() > 0,
        forall|i: int| 0 <= i < errors.len() ==> !(#[trigger] errors[i]).nan(),
    ensures
        match median_rule(errors) {
            Median::Known(middle) => {
                &&& errors.len() % 2 == 1
                &&& errors.contains(middle)
                &&& count_before(errors, middle) <= errors.len() / 2
                &&& count_after(errors, middle) <= errors.len() / 2
            },
            Median::Halfway(lower, upper) => {
                &&& errors.len() % 2 == 0
                &&& errors.contains(lower)
                &&& errors.contains(upper)
                &&& lower.total_rank() <= upper.total_rank()
                &&& count_before(errors, lower) < errors.len() / 2
                &&& count_after(errors, lower) <= errors.len() / 2
                &&& count_after(errors, upper) < errors.len() / 2
                &&& count_before(errors, upper) <= errors.len() / 2
                &&& forall|i: int|
                    0 <= i < errors.len() ==> !(lower.total_rank() < (
                    #[trigger] errors[i]).total_rank() < upper.total_rank())
            },
        },
{
    sorting_only_reorders(errors);
    let sorted = ascending(errors);
    let middle = (errors.len() / 2) as int;
    assert(!has_nan(errors));
    places_count_the_values(errors, middle);
    if errors.len() % 2 == 0 {
        places_count_the_values(errors, middle - 1);
        assert(sorted[middle - 1].total_rank() <= sorted[middle].total_rank());
        assert forall|i: int| 0 <= i < errors.len() implies !(sorted[middle - 1].total_rank() < (
        #[trigger] errors[i]).total_rank() < sorted[middle].total_rank()) by {
            assert(errors.contains(errors[i]));
            assert(sorted.contains(errors[i]));
            let k = choose|k: int| 0 <= k < sorted.len() && sorted[k] == errors[i];
            if k < middle {
                assert(sorted[k].total_rank() <= sorted[middle - 1].total_rank());
            } else {
                assert(sorted[middle].total_rank() <= sorted[k].total_rank());
            }
        }
    }
}

/// No errors have mean and median zero. A NaN among the errors makes both a NaN, an
/// infinite error without a NaN makes the mean infinite, and finite errors have the
/// arithmetic mean.
pub proof fn irregular_errors_decide_the_averages(errors: Seq<Scalar>, k: int)
    ensures
        errors.len() == 0 ==> mean_rule(errors) == Mean::Known(Scalar { bits: 0 })
            && median_rule(errors) == Median::Known(Scalar { bits: 0 }),
        0 <= k < errors.len() && errors[k].nan() ==> mean_rule(errors) is Known && mean_rule(
            errors,
        )->Known_0.nan() && median_rule(errors) is Known && median_rule(errors)->Known_0.nan(),
        0 <= k < errors.len() && !errors[k].nan() && !errors[k].finite() && (forall|i: int|
            0 <= i < errors.len() ==> !(#[trigger] errors[i]).nan()) ==> mean_rule(errors)
            == Mean::Known(Scalar { bits: INFINITY_BITS }),
        errors.len() > 0 && (forall|i: int|
            0 <= i < errors.len() ==> (#[trigger] errors[i]).finite()) ==> mean_rule(errors)
            is Arithmetic,
{
    let nan = Scalar { bits: NAN_BITS };
    assert(nan.nan());
}

/// Summarizes a list of relative errors.
#[must_use]
pub fn summarize_relative_errors(errors: Vec<Scalar>) -> (result: RelativeErrorMetrics)
    ensures
        result.errors@ == errors@,
        result.n_samples == errors@.len(),
        result.mean_error == mean_rule(errors@),
        result.median_error == median_rule(errors@),
        errors@.len() > 0 && !has_nan(errors@) ==> parts_in_halves(result.median_error, errors@),
        errors@.len() == 0 ==> result.max_error.bits == 0 && result.min_error.bits == 0,
        errors@.len() > 0 ==> is_largest(result.max_error, errors@) && is_smallest(
            result.min_error,
            errors@,
        ),
{
    let n: usize = errors.len();
    let nan: bool = any_nan(errors.as_slice());
    let mean = if n == 0 {
        Mean::Known(Scalar::zero())
    } else if nan {
        Mean::Known(Scalar::from_bits(NAN_BITS))
    } else if any_infinite(errors.as_slice()) {
        Mean::Known(Scalar::from_bits(INFINITY_BITS))
    } else {
        Mean::Arithmetic
    };
    let median = if n == 0 {
        Median::Known(Scalar::zero())
    } else if nan {
        Median::Known(Scalar::from_bits(NAN_BITS))
    } else {
        let sorted = sort_scalars(errors.as_slice());
        let middle: usize = n / 2;
        if n % 2 == 0 {
            Median::Halfway(sorted[middle - 1], sorted[middle])
        } else {
            Median::Known(sorted[middle])
        }
    };
    proof {
        if errors@.len() > 0 && !has_nan(errors@) {
            medians_part_the_errors_in_halves(errors@);
        }
    }
    let max_error = largest(errors.as_slice());
    let min_error = smallest(errors.as_slice());
    RelativeErrorMetrics {
        errors,
        n_samples: n,
        mean_error: mean,
        median_error: median,
        max_error,
        min_error,
    }
}

/// The message for component lists of different lengths.
pub open spec fn length_mismatch(
    true_real: int,
    true_imag: int,
    pred_real: int,
    pred_imag: int,
) -> Seq<char> {
    "Length mismatch for relative error components: true_real="@ + decimal_digits(true_real as nat)
        + ", true_imag="@ + decimal_digits(true_imag as nat) + ", pred_real="@ + decimal_digits(
        pred_real as nat,
    ) + ", pred_imag="@ + decimal_digits(pred_imag as nat)
}

/// The number of predictions whose components are listed, provided that the four
/// lists are equally long.
pub fn component_count(
    true_real: usize,
    true_imag: usize,
    pred_real: usize,
    pred_imag: usize,
) -> (result: Result<usize, CoreError>)
    ensures
        result is Ok <==> true_imag == true_real && pred_real == true_real && pred_imag
            == true_real,
        result matches Ok(n) ==> n == true_real,
        result matches Err(e) ==> e.says(
            length_mismatch(true_real as int, true_imag as int, pred_real as int, pred_imag as int),
        ),
{
    if true_imag != true_real || pred_real != true_real || pred_imag != true_real {
        let first = decimal(true_real as u64);
        let second = decimal(true_imag as u64);
        let third = decimal(pred_real as u64);
        let fourth = decimal(pred_imag as u64);
        let mut message = concat2(
            "Length mismatch for relative error components: true_real=",
            first.as_str(),
        );
        message.append(", true_imag=");
        message.append(second.as_str());
        message.append(", pred_real=");
        message.append(third.as_str());
        message.append(", pred_imag=");
        message.append(fourth.as_str());
        return Err(CoreError::Msg(message));
    }
    Ok(true_real)
}

/// There is a value, and each has its prediction.
pub open spec fn r2_applies(y_true: nat, y_pred: nat) -> bool {
    y_true == y_pred && y_true > 0
}

/// All four lists are equally long, and not empty.
pub open spec fn complex_r2_applies(
    true_real: nat,
    true_imag: nat,
    pred_real: nat,
    pred_imag: nat,
) -> bool {
    true_real > 0 && pred_real == true_real && true_imag == true_real && pred_imag == true_real
}

/// The coefficient of determination of predictions. The lists have these lengths;
/// `ss_tot` is the sum of the squared distances of the values from their mean, and
/// `score` is what is left of one when the sum of the squared errors, divided by
/// `ss_tot`, is taken away. It is not a number where values and predictions do not pair
/// up, where there is none, and where the values do not vary.
#[must_use]
pub fn r2_score(y_true: usize, y_pred: usize, ss_tot: Scalar, score: Scalar) -> (result: Scalar)
    ensures
        result == r2_value(y_true as nat, y_pred as nat, ss_tot, score),
{
    if y_true != y_pred || y_true == 0 || ss_tot.at_most(Scalar::zero()) {
        Scalar::from_bits(NAN_BITS)
    } else {
        score
    }
}

/// The coefficient of determination of predictions.
pub open spec fn r2_value(y_true: nat, y_pred: nat, ss_tot: Scalar, score: Scalar) -> Scalar {
    if !r2_applies(y_true, y_pred) || ss_tot.le(Scalar { bits: 0 }) {
        Scalar { bits: NAN_BITS }
    } else {
        score
    }
}

/// The coefficients of determination of the two components.
#[derive(Clone, Copy, Debug, PartialEq, Eq, Structural)]
pub struct ComplexR2Scores {
    pub r2_real: Scalar,
    pub r2_imag: Scalar,
}

/// The score of one component, where the lists pair up: not a number unless its values
/// vary.
pub open spec fn component_score(ss_tot: Scalar, score: Scalar) -> Scalar {
    if (Scalar { bits: 0 }).lt(ss_tot) {
        score
    } else {
        Scalar { bits: NAN_BITS }
    }
}

/// The scores of both components. `re` and `im` are the sum of squared distances and
/// the score of each.
pub open spec fn complex_scores(
    true_real: nat,
    true_imag: nat,
    pred_real: nat,
    pred_imag: nat,
    re: (Scalar, Scalar),
    im: (Scalar, Scalar),
) -> ComplexR2Scores {
    if complex_r2_applies(true_real, true_imag, pred_real, pred_imag) {
        ComplexR2Scores {
            r2_real: component_score(re.0, re.1),
            r2_imag: component_score(im.0, im.1),
        }
    } else {
        ComplexR2Scores {
            r2_real: Scalar { bits: NAN_BITS },
            r2_imag: Scalar { bits: NAN_BITS },
        }
    }
}

fn score_component(ss_tot: Scalar, score: Scalar) -> (result: Scalar)
    ensures
        result == component_score(ss_tot, score),
{
    if ss_tot.is_positive() {
        score
    } else {
        Scalar::from_bits(NAN_BITS)
    }
}

/// The coefficients of determination of a complex prediction whose component lists
/// have these lengths. `re` and `im` are the sum of squared distances and the score of
/// each component, as [`r2_score`] takes them.
#[must_use]
pub fn complex_r2_scores(
    true_real: usize,
    true_imag: usize,
    pred_real: usize,
    pred_imag: usize,
    re: (Scalar, Scalar),
    im: (Scalar, Scalar),
) -> (result: ComplexR2Scores)
    ensures
        result == complex_scores(
            true_real as nat,
            true_imag as nat,
            pred_real as nat,
            pred_imag as nat,
            re,
            im,
        ),
{
    if true_real == 0 || pred_real != true_real || true_imag != true_real || pred_imag
        != true_real {
        return ComplexR2Scores {
            r2_real: Scalar::from_bits(NAN_BITS),
            r2_imag: Scalar::from_bits(NAN_BITS),
        };
    }
    ComplexR2Scores {
        r2_real: score_component(re.0, re.1),
        r2_imag: score_component(im.0, im.1),
    }
}

/// Each component is scored by its own values alone, and as it would be by itself: the
/// values of the other one do not matter. `spread` and `score` stand for the arithmetic
/// on a component.
pub proof fn components_are_scored_apart(
    spread: spec_fn(Seq<Scalar>) -> Scalar,
    score: spec_fn(Seq<Scalar>, Seq<Scalar>) -> Scalar,
    truth: Seq<Scalar>,
    prediction: Seq<Scalar>,
    other_truth: Seq<Scalar>,
    other_prediction: Seq<Scalar>,
)
    requires
        truth.len() > 0,
        prediction.len() == truth.len(),
        other_truth.len() == truth.len(),
        other_prediction.len() == truth.len(),
        spread(truth).nan() ==> score(truth, prediction).nan(),
    ensures
        ({
            let n = truth.len();
            let own = (spread(truth), score(truth, prediction));
            let other = (spread(other_truth), score(other_truth, other_prediction));
            let alone = r2_value(n, n, own.0, own.1);
            let as_real = complex_scores(n, n, n, n, own, other).r2_real;
            let as_imag = complex_scores(n, n, n, n, other, own).r2_imag;
            &&& as_real == component_score(own.0, own.1)
            &&& as_imag == as_real
            &&& as_real == alone || (as_real.nan() && alone.nan())
        }),
{
    let nan = Scalar { bits: NAN_BITS };
    assert(nan.nan());
}

/// Not a number, or a number that is not below zero.
pub open spec fn never_below_zero(value: Scalar) -> bool {
    value.nan() || (Scalar { bits: 0 }).le(value)
}

/// Not a number, or at most one.
pub open spec fn never_above_one(value: Scalar) -> bool {
    value.nan() || value.le(Scalar { bits: ONE_BITS })
}

/// A score is not a number or at most one, whatever the values and however many there
/// are. `errors` and `spread` stand for the sums of squares, `quotient` and `difference`
/// for division and subtraction of doubles: a sum of squares is not below zero, nor is
/// its quotient by a number above zero, and what is left of one without such a
/// quotient is not above one.
pub proof fn scores_are_at_most_one(
    errors: spec_fn(Seq<Scalar>, Seq<Scalar>) -> Scalar,
    spread: spec_fn(Seq<Scalar>) -> Scalar,
    quotient: spec_fn(Scalar, Scalar) -> Scalar,
    difference: spec_fn(Scalar, Scalar) -> Scalar,
    true_real: Seq<Scalar>,
    true_imag: Seq<Scalar>,
    pred_real: Seq<Scalar>,
    pred_imag: Seq<Scalar>,
)
    requires
        forall|t: Seq<Scalar>, p: Seq<Scalar>| never_below_zero(#[trigger] errors(t, p)),
        forall|a: Scalar, b: Scalar|
            never_below_zero(a) && (Scalar { bits: 0 }).lt(b) ==> never_below_zero(
                #[trigger] quotient(a, b),
            ),
        forall|a: Scalar, b: Scalar| b.nan() ==> (#[trigger] quotient(a, b)).nan(),
        forall|b: Scalar|
            never_below_zero(b) ==> never_above_one(
                #[trigger] difference(Scalar { bits: ONE_BITS }, b),
            ),
    ensures
        ({
            let score = |t: Seq<Scalar>, p: Seq<Scalar>|
                difference(Scalar { bits: ONE_BITS }, quotient(errors(t, p), spread(t)));
            let both = complex_scores(
                true_real.len(),
                true_imag.len(),
                pred_real.len(),
                pred_imag.len(),
                (spread(true_real), score(true_real, pred_real)),
                (spread(true_imag), score(true_imag, pred_imag)),
            );
            &&& never_above_one(
                r2_value(
                    true_real.len(),
                    pred_real.len(),
                    spread(true_real),
                    score(true_real, pred_real),
                ),
            )
            &&& never_above_one(both.r2_real)
            &&& never_above_one(both.r2_imag)
        }),
{
    let nan = Scalar { bits: NAN_BITS };
    assert(nan.nan());
    let re = quotient(errors(true_real, pred_real), spread(true_real));
    let im = quotient(errors(true_imag, pred_imag), spread(true_imag));
    if !spread(true_real).le(Scalar { bits: 0 }) {
        assert(never_below_zero(errors(true_real, pred_real)));
        assert(never_below_zero(re));
        assert(never_above_one(difference(Scalar { bits: ONE_BITS }, re)));
    }
    if (Scalar { bits: 0 }).lt(spread(true_imag)) {
        assert(never_below_zero(errors(true_imag, pred_imag)));
        assert(never_below_zero(im));
        assert(never_above_one(difference(Scalar { bits: ONE_BITS }, im)));
    }
}

/// The largest error is one of the errors and no other exceeds it; the smallest is one of
/// them and exceeds no other.
pub proof fn extremes_bound_the_errors(
    largest: Scalar,
    smallest: Scalar,
    errors: Seq<Scalar>,
    i: int,
)
    requires
        is_largest(largest, errors),
        is_smallest(smallest, errors),
        0 <= i < errors.len(),
        !has_nan(errors),
    ensures
        errors.contains(largest) && errors.contains(smallest),
        errors[i].le(largest),
        smallest.le(errors[i]),
{
    let l = choose|k: int| 0 <= k < errors.len() && errors[k] == largest;
    let s = choose|k: int| 0 <= k < errors.len() && errors[k] == smallest;
    assert(!errors[l].nan() && !errors[s].nan() && !errors[i].nan());
}

/// A classification tells of each error whether it is finite and within its threshold, and
/// counts those that are.
pub proof fn classifications_count_good_predictions(
    classification: ClassificationResult,
    errors: Seq<Scalar>,
    threshold: Scalar,
)
    requires
        classification.classifies(errors, threshold),
    ensures
        classification.threshold == threshold,
        classification.ok_mask@.len() == errors.len(),
        forall|i: int|
            0 <= i < errors.len() ==> #[trigger] classification.ok_mask@[i] == (
            errors[i].finite() && errors[i].le(threshold)),
        classification.ok_count == errors.filter(
            |e: Scalar| e.finite() && e.le(threshold),
        ).len(),
{
    good_predictions_are_within_the_threshold(errors, threshold);
}

/// A score of determination is computed exactly where there are as many predictions as true
/// values, at least one, and these vary; it is no number otherwise.
pub proof fn scores_need_values_that_vary(y_true: nat, y_pred: nat, ss_tot: Scalar, score: Scalar)
    requires
        !score.nan(),
    ensures
        r2_value(y_true, y_pred, ss_tot, score) == score <==> y_true == y_pred && y_true > 0
            && !ss_tot.le(Scalar { bits: 0 }),
        r2_value(y_true, y_pred, ss_tot, score) != score ==> r2_value(
            y_true,
            y_pred,
            ss_tot,
            score,
        ).nan(),
{
}

/// The two parts are scored exactly where there are as many true and predicted values of
/// each, at least one; otherwise neither score is a number.
pub proof fn both_parts_are_scored_or_neither(
    true_real: nat,
    true_imag: nat,
    pred_real: nat,
    pred_imag: nat,
    re: (Scalar, Scalar),
    im: (Scalar, Scalar),
)
    ensures
        ({
            let scores = complex_scores(true_real, true_imag, pred_real, pred_imag, re, im);
            let one_length = true_real > 0 && true_imag == true_real && pred_real == true_real
                && pred_imag == true_real;
            &&& one_length ==> scores.r2_real == component_score(re.0, re.1)
            &&& one_length ==> scores.r2_imag == component_score(im.0, im.1)
            &&& !one_length ==> scores.r2_real.nan() && scores.r2_imag.nan()
        }),
{
}

} // verus!

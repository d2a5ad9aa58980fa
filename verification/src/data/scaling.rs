//! Feature scalers: what they accept, what they keep, and how their statistics
//! change when columns change sign.
//!
//! The statistics themselves are sums over the data; they are handed in.

use super::tensor::{equal_dims, matrix, DType, Device, Tensor};
use crate::base::error::{two_number_error, CoreError, PieceView};
use crate::base::validation::{dims_text, format_dims};
use crate::scalar::{Scalar, ONE_BITS};
use crate::text::{concat2, concat3, copy_of, decimal, decimal_digits};
use vstd::prelude::*;
use vstd::string::StringExecFns;

verus! {

/// A floating-point element type.
pub open spec fn is_floating(dtype: DType) -> bool {
    !(dtype == DType::U8 || dtype == DType::U32 || dtype == DType::I16 || dtype == DType::I32
        || dtype == DType::I64)
}

/// The name of an element type.
pub open spec fn dtype_text(dtype: DType) -> Seq<char> {
    match dtype {
        DType::U8 => "U8"@,
        DType::U32 => "U32"@,
        DType::I16 => "I16"@,
        DType::I32 => "I32"@,
        DType::I64 => "I64"@,
        DType::BF16 => "BF16"@,
        DType::F16 => "F16"@,
        DType::F32 => "F32"@,
        DType::F64 => "F64"@,
    }
}

/// The name of an element type.
pub fn dtype_name(dtype: DType) -> (result: &'static str)
    ensures
        result@ == dtype_text(dtype),
{
    match dtype {
        DType::U8 => "U8",
        DType::U32 => "U32",
        DType::I16 => "I16",
        DType::I32 => "I32",
        DType::I64 => "I64",
        DType::BF16 => "BF16",
        DType::F16 => "F16",
        DType::F32 => "F32",
        DType::F64 => "F64",
    }
}

/// Why data does not suit an operation of a scaler; `None` where it does.
pub open spec fn data_fault(data: Tensor, scaler: Seq<char>, operation: Seq<char>) -> Option<
    Seq<char>,
> {
    if data.dims@.len() != 2 {
        Some(
            scaler + "::"@ + operation
                + " expects a 2D tensor shaped (batch_size, num_features), got "@ + dims_text(
                data.dims@,
            ),
        )
    } else if data.dims@[0] == 0 || data.dims@[1] == 0 {
        Some(
            scaler + "::"@ + operation
                + " expects non-empty batch and feature dimensions, got "@ + dims_text(data.dims@),
        )
    } else if !is_floating(data.dtype) {
        Some(
            scaler + "::"@ + operation + " expects a floating-point tensor, got "@ + dtype_text(
                data.dtype,
            ),
        )
    } else {
        None
    }
}

fn validate_feature_matrix(data: &Tensor, scaler: &str, operation: &str) -> (result: Result<
    (usize, usize),
    CoreError,
>)
    ensures
        result is Ok <==> data.dims@.len() == 2 && data.dims@[0] > 0 && data.dims@[1] > 0,
        result matches Ok(shape) ==> shape == (data.dims@[0], data.dims@[1]),
        result matches Err(e) ==> data_fault(*data, scaler@, operation@) is Some && e.says(
            data_fault(*data, scaler@, operation@)->0,
        ),
{
    let mut message = concat3(scaler, "::", operation);
    let written = format_dims(data.dims.as_slice());
    if data.dims.len() != 2 {
        message.append(" expects a 2D tensor shaped (batch_size, num_features), got ");
        message.append(written.as_str());
        return Err(CoreError::Msg(message));
    }
    if data.dims[0] == 0 || data.dims[1] == 0 {
        message.append(" expects non-empty batch and feature dimensions, got ");
        message.append(written.as_str());
        return Err(CoreError::Msg(message));
    }
    Ok((data.dims[0], data.dims[1]))
}

fn validate_floating_dtype(dtype: DType, scaler: &str, operation: &str) -> (result: Result<
    (),
    CoreError,
>)
    ensures
        result is Ok <==> is_floating(dtype),
        result matches Err(e) ==> e.says(
            scaler@ + "::"@ + operation@ + " expects a floating-point tensor, got "@ + dtype_text(
                dtype,
            ),
        ),
{
    match dtype {
        DType::U8 | DType::U32 | DType::I16 | DType::I32 | DType::I64 => {
            let mut message = concat3(scaler, "::", operation);
            message.append(" expects a floating-point tensor, got ");
            message.append(dtype_name(dtype));
            Err(CoreError::Msg(message))
        },
        _ => Ok(()),
    }
}

/// Accepts a non-empty matrix of floating-point values, and returns its
/// dimensions.
pub fn validate_data(data: &Tensor, scaler: &str, operation: &str) -> (result: Result<
    (usize, usize),
    CoreError,
>)
    ensures
        result is Ok <==> data_fault(*data, scaler@, operation@) is None,
        result matches Ok(shape) ==> shape == (data.dims@[0], data.dims@[1]),
        result matches Err(e) ==> e.says(data_fault(*data, scaler@, operation@)->0),
{
    let shape: (usize, usize) = match validate_feature_matrix(data, scaler, operation) {
        Ok(shape) => shape,
        Err(e) => {
            return Err(e);
        },
    };
    match validate_floating_dtype(data.dtype, scaler, operation) {
        Ok(()) => Ok(shape),
        Err(e) => Err(e),
    }
}

/// The message for data with another number of columns than the statistics.
pub open spec fn wrong_feature_count(
    scaler: Seq<char>,
    operation: Seq<char>,
    expected: int,
    got: int,
) -> Seq<char> {
    scaler + "::"@ + operation + " expected "@ + decimal_digits(expected as nat)
        + " features based on fitted statistics, got "@ + decimal_digits(got as nat)
}

fn validate_feature_count(
    feature_count: usize,
    expected: usize,
    scaler: &str,
    operation: &str,
) -> (result: Result<(), CoreError>)
    ensures
        result is Ok <==> feature_count == expected,
        result matches Err(e) ==> e.says(
            wrong_feature_count(scaler@, operation@, expected as int, feature_count as int),
        ),
{
    if feature_count != expected {
        let wanted = decimal(expected as u64);
        let got = decimal(feature_count as u64);
        let mut message = concat3(scaler, "::", operation);
        message.append(" expected ");
        message.append(wanted.as_str());
        message.append(" features based on fitted statistics, got ");
        message.append(got.as_str());
        return Err(CoreError::Msg(message));
    }
    Ok(())
}

/// A value, or one in place of either zero.
pub open spec fn nonzero_or_one(value: Scalar) -> Scalar {
    if value.magnitude() == 0 {
        Scalar { bits: ONE_BITS }
    } else {
        value
    }
}

/// The values with one in place of every zero, so that they can divide.
pub fn replace_zero_with_one(values: &Vec<Scalar>) -> (result: Vec<Scalar>)
    ensures
        result@ == values@.map_values(|v: Scalar| nonzero_or_one(v)),
{
    let mut result: Vec<Scalar> = Vec::new();
    let mut i: usize = 0;
    while i < values.len()
        invariant
            i <= values@.len(),
            result@ == values@.take(i as int).map_values(|v: Scalar| nonzero_or_one(v)),
        decreases values@.len() - i,
    {
        let v = values[i];
        let zero: bool = v.bits == 0 || v.bits == crate::scalar::SIGN_BIT;
        let safe = if zero {
            Scalar::one()
        } else {
            v
        };
        result.push(safe);
        proof {
            assert(values@.take(i + 1).map_values(|v: Scalar| nonzero_or_one(v)) == values@.take(
                i as int,
            ).map_values(|v: Scalar| nonzero_or_one(v)).push(nonzero_or_one(v)));
        }
        i += 1;
    }
    proof {
        assert(values@.take(values@.len() as int) == values@);
    }
    result
}

/// The no-op scaler.
#[derive(Clone, Copy, Debug, PartialEq, Eq, Structural)]
pub struct IdentityScaler;

impl IdentityScaler {
    #[must_use]
    pub fn new() -> (result: IdentityScaler)
        ensures
            result == IdentityScaler,
    {
        IdentityScaler
    }

    /// The data as it is.
    pub fn transform(&self, data: &Tensor) -> (result: Tensor)
        ensures
            result.same_as(*data),
    {
        data.copied()
    }

    /// The data as it is.
    pub fn inverse_transform(&self, data: &Tensor) -> (result: Tensor)
        ensures
            result.same_as(*data),
    {
        data.copied()
    }
}

/// How often `column` occurs in `columns`.
pub open spec fn occurrences(columns: Seq<usize>, column: int) -> nat
    decreases columns.len(),
{
    if columns.len() == 0 {
        0
    } else {
        occurrences(columns.drop_last(), column) + if columns.last() == column {
            1nat
        } else {
            0nat
        }
    }
}

/// The values with the sign of each flipped as often as `columns` lists its
/// index.
pub open spec fn negated_at(values: Seq<Scalar>, columns: Seq<usize>) -> Seq<Scalar> {
    values.map(
        |i: int, v: Scalar|
            if occurrences(columns, i) % 2 == 1 {
                v.flipped()
            } else {
                v
            },
    )
}

/// Negating the same columns twice gives the values back.
pub proof fn negating_columns_is_an_involution(values: Seq<Scalar>, columns: Seq<usize>)
    ensures
        negated_at(negated_at(values, columns), columns) == values,
{
    assert forall|i: int| 0 <= i < values.len() implies negated_at(
        negated_at(values, columns),
        columns,
    )[i] == values[i] by {
        crate::scalar::negation_is_an_involution(values[i]);
    }
}

/// The first of `columns` that is not below `count`, if there is one.
pub open spec fn first_beyond(columns: Seq<usize>, count: usize) -> Option<usize>
    decreases columns.len(),
{
    if columns.len() == 0 {
        None
    } else {
        match first_beyond(columns.drop_last(), count) {
            Some(column) => Some(column),
            None => if columns.last() >= count {
                Some(columns.last())
            } else {
                None
            },
        }
    }
}

/// Both statistics are kept in double precision on the CPU.
pub open spec fn kept_as_doubles(statistics: (Tensor, Tensor)) -> bool {
    &&& statistics.0.dtype == DType::F64
    &&& statistics.1.dtype == DType::F64
    &&& statistics.0.device == Device::Cpu
    &&& statistics.1.device == Device::Cpu
}

/// Zero-mean, unit-variance scaling: the statistics that a fit has left.
#[derive(Debug)]
pub struct StandardScaler {
    stats: Option<(Tensor, Tensor)>,
}

/// The message of an operation that needs a fit.
pub open spec fn unfitted(scaler: Seq<char>) -> Seq<char> {
    scaler + " must be fitted before transform or inverse_transform"@
}

/// Why two tensors are not statistics of a standard scaler; `None` where they
/// are.
pub open spec fn stats_fault(mean: Tensor, std: Tensor) -> Option<Seq<char>> {
    let scaler = "StandardScaler"@;
    let operation = "from_stats"@;
    if mean.dims@.len() != 2 || mean.dims@[0] == 0 || mean.dims@[1] == 0 {
        data_fault(mean, scaler, operation)
    } else if std.dims@.len() != 2 || std.dims@[0] == 0 || std.dims@[1] == 0 {
        data_fault(std, scaler, operation)
    } else if !is_floating(mean.dtype) {
        data_fault(mean, scaler, operation)
    } else if !is_floating(std.dtype) {
        data_fault(std, scaler, operation)
    } else if mean.dims@ != std.dims@ {
        Some(
            "StandardScaler::from_stats expects matching mean/std shapes, got "@ + dims_text(
                mean.dims@,
            ) + " vs "@ + dims_text(std.dims@),
        )
    } else {
        None
    }
}

impl StandardScaler {
    /// Fitted statistics are two matrices of the same shape, on the CPU, in double
    /// precision, and no deviation is zero.
    pub closed spec fn wf(&self) -> bool {
        match self.stats {
            Some((mean, std)) => {
                &&& mean.is_matrix()
                &&& std.is_matrix()
                &&& mean.dims@ == std.dims@
                &&& mean.dtype == DType::F64
                &&& std.dtype == DType::F64
                &&& mean.device == Device::Cpu
                &&& std.device == Device::Cpu
                &&& forall|i: int|
                    0 <= i < std.values@.len() ==> (#[trigger] std.values@[i]).magnitude() != 0
            },
            None => true,
        }
    }

    pub closed spec fn fitted(&self) -> bool {
        self.stats is Some
    }

    /// The means and deviations of a fitted scaler.
    pub closed spec fn statistics(&self) -> (Tensor, Tensor) {
        self.stats->0
    }

    /// The number of columns of a fitted scaler.
    pub open spec fn features(&self) -> int {
        self.statistics().0.dims@[1] as int
    }

    /// A scaler that has not been fitted.
    #[must_use]
    pub fn new() -> (result: StandardScaler)
        ensures
            result.wf(),
            !result.fitted(),
    {
        StandardScaler { stats: None }
    }

    /// A scaler with the given means and deviations; a deviation of zero becomes
    /// one.
    pub fn from_stats(mean: Tensor, std: Tensor) -> (result: Result<StandardScaler, CoreError>)
        requires
            mean.wf(),
            std.wf(),
        ensures
            result is Ok <==> stats_fault(mean, std) is None,
            result matches Ok(scaler) ==> {
                &&& scaler.wf()
                &&& scaler.fitted()
                &&& kept_as_doubles(scaler.statistics())
                &&& scaler.statistics().0.dims@ == mean.dims@
                &&& scaler.statistics().0.values@ == mean.values@
                &&& scaler.statistics().1.dims@ == mean.dims@
                &&& scaler.statistics().1.values@ == std.values@.map_values(
                    |v: Scalar| nonzero_or_one(v),
                )
            },
            result matches Err(e) ==> e.says(stats_fault(mean, std)->0),
    {
        if let Err(e) = validate_feature_matrix(&mean, "StandardScaler", "from_stats") {
            return Err(e);
        }
        if let Err(e) = validate_feature_matrix(&std, "StandardScaler", "from_stats") {
            return Err(e);
        }
        if let Err(e) = validate_floating_dtype(mean.dtype, "StandardScaler", "from_stats") {
            return Err(e);
        }
        if let Err(e) = validate_floating_dtype(std.dtype, "StandardScaler", "from_stats") {
            return Err(e);
        }
        if !equal_dims(&mean.dims, &std.dims) {
            let left = format_dims(mean.dims.as_slice());
            let right = format_dims(std.dims.as_slice());
            let mut message = concat2(
                "StandardScaler::from_stats expects matching mean/std shapes, got ",
                left.as_str(),
            );
            message.append(" vs ");
            message.append(right.as_str());
            return Err(CoreError::Msg(message));
        }
        let safe = replace_zero_with_one(&std.values);
        let kept_mean = Tensor {
            dims: mean.dims,
            values: mean.values,
            dtype: DType::F64,
            device: Device::Cpu,
        };
        let kept_std = Tensor {
            dims: std.dims,
            values: safe,
            dtype: DType::F64,
            device: Device::Cpu,
        };
        Ok(StandardScaler { stats: Some((kept_mean, kept_std)) })
    }

    #[must_use]
    pub fn is_fitted(&self) -> (result: bool)
        ensures
            result == self.fitted(),
    {
        self.stats.is_some()
    }

    /// Copies of the means and deviations.
    pub fn cloned_stats(&self) -> (result: Result<(Tensor, Tensor), CoreError>)
        ensures
            result is Ok <==> self.fitted(),
            result matches Ok(stats) ==> stats.0.same_as(self.statistics().0) && stats.1.same_as(
                self.statistics().1,
            ),
            result matches Err(e) ==> e.says(unfitted("StandardScaler"@)),
    {
        match &self.stats {
            Some((mean, std)) => Ok((mean.copied(), std.copied())),
            None => Err(
                CoreError::Msg(
                    concat2(
                        "StandardScaler",
                        " must be fitted before transform or inverse_transform",
                    ),
                ),
            ),
        }
    }

    /// The scaler of the same data with the signs of some columns flipped. A
    /// column that is listed twice is flipped back.
    pub fn with_negated_columns(&self, columns: &[usize]) -> (result: Result<
        StandardScaler,
        CoreError,
    >)
        requires
            self.wf(),
        ensures
            result is Ok <==> self.fitted() && first_beyond(
                columns@,
                self.statistics().0.dims@[1],
            ) is None,
            result matches Ok(scaler) ==> {
                &&& scaler.wf()
                &&& scaler.fitted()
                &&& kept_as_doubles(scaler.statistics())
                &&& scaler.statistics().0.dims@ == self.statistics().0.dims@
                &&& scaler.statistics().0.values@ == negated_at(
                    self.statistics().0.values@,
                    columns@,
                )
                &&& scaler.statistics().1.dims@ == self.statistics().1.dims@
                &&& scaler.statistics().1.values@ == self.statistics().1.values@
            },
            result matches Err(e) ==> e.says(
                if !self.fitted() {
                    unfitted("StandardScaler"@)
                } else {
                    "StandardScaler::with_negated_columns expected a column index below "@
                        + decimal_digits(self.statistics().0.dims@[1] as nat) + ", got "@
                        + decimal_digits(
                        first_beyond(columns@, self.statistics().0.dims@[1])->0 as nat,
                    )
                },
            ),
    {
        let (mean, std) = match self.cloned_stats() {
            Ok(stats) => stats,
            Err(e) => {
                return Err(e);
            },
        };
        let features: usize = mean.dims[1];
        let ghost start = mean.values@;
        let ghost dims = mean.dims@;
        proof {
            super::tensor::lemma_element_count_of_two(dims);
            let rows = dims[0] as int;
            assert(features <= rows * features) by (nonlinear_arith)
                requires
                    rows >= 1,
                    features >= 0,
            ;
        }
        let mut values: Vec<Scalar> = mean.values;
        let mut k: usize = 0;
        proof {
            assert(columns@.take(0) == Seq::<usize>::empty());
            assert(values@ == negated_at(start, columns@.take(0)));
        }
        while k < columns.len()
            invariant
                k <= columns@.len(),
                values@.len() == start.len(),
                features <= start.len(),
                values@ == negated_at(start, columns@.take(k as int)),
                first_beyond(columns@.take(k as int), features) is None,
                self.fitted(),
                features == self.statistics().0.dims@[1],
            decreases columns@.len() - k,
        {
            let column: usize = columns[k];
            proof {
                assert(columns@.take(k + 1).drop_last() == columns@.take(k as int));
                assert(columns@.take(k + 1).last() == column);
            }
            if column >= features {
                proof {
                    lemma_first_beyond_is_kept(columns@, features, k + 1);
                }
                let bound = decimal(features as u64);
                let got = decimal(column as u64);
                let mut message = concat2(
                    "StandardScaler::with_negated_columns expected a column index below ",
                    bound.as_str(),
                );
                message.append(", got ");
                message.append(got.as_str());
                return Err(CoreError::Msg(message));
            }
            let ghost before = values@;
            let flipped = values[column].negated();
            values.set(column, flipped);
            proof {
                let after = negated_at(start, columns@.take(k + 1));
                assert forall|i: int| 0 <= i < start.len() implies values@[i] == after[i] by {
                    assert(occurrences(columns@.take(k + 1), i) == occurrences(
                        columns@.take(k as int),
                        i,
                    ) + if column == i {
                        1nat
                    } else {
                        0nat
                    });
                    crate::scalar::negation_is_an_involution(start[i]);
                }
                assert(values@ == after);
            }
            k += 1;
        }
        proof {
            assert(columns@.take(columns@.len() as int) == columns@);
        }
        let negated = Tensor {
            dims: mean.dims,
            values,
            dtype: DType::F64,
            device: Device::Cpu,
        };
        proof {
            assert(std.values@.map_values(|v: Scalar| nonzero_or_one(v)) == std.values@);
        }
        StandardScaler::from_stats(negated, std)
    }

    /// Whether data can be fitted to.
    pub fn check_fit(&self, data: &Tensor) -> (result: Result<(), CoreError>)
        ensures
            result is Ok <==> data_fault(*data, "StandardScaler"@, "fit"@) is None,
            result matches Err(e) ==> e.says(
                data_fault(*data, "StandardScaler"@, "fit"@)->0,
            ),
    {
        match validate_data(data, "StandardScaler", "fit") {
            Ok(_) => Ok(()),
            Err(e) => Err(e),
        }
    }

    /// Keeps the column means and deviations of fitted data; a deviation of zero
    /// becomes one.
    pub fn record_fit(&mut self, means: Vec<Scalar>, deviations: Vec<Scalar>)
        requires
            means@.len() == deviations@.len(),
            means@.len() > 0,
        ensures
            final(self).wf(),
            final(self).fitted(),
            kept_as_doubles(final(self).statistics()),
            final(self).statistics().0.dims@ == seq![1usize, means@.len() as usize],
            final(self).statistics().1.dims@ == seq![1usize, means@.len() as usize],
            final(self).statistics().0.values@ == means@,
            final(self).statistics().1.values@ == deviations@.map_values(
                |v: Scalar| nonzero_or_one(v),
            ),
    {
        let columns: usize = means.len();
        let safe = replace_zero_with_one(&deviations);
        proof {
            assert(1 * columns == columns) by (nonlinear_arith);
        }
        let mean = matrix(1, columns, means, DType::F64, Device::Cpu);
        let std = matrix(1, columns, safe, DType::F64, Device::Cpu);
        self.stats = Some((mean, std));
    }

    /// The means and deviations that `operation` applies to `data`.
    pub fn stats_for(&self, data: &Tensor, operation: &str) -> (result: Result<
        (&Tensor, &Tensor),
        CoreError,
    >)
        requires
            self.wf(),
        ensures
            result is Ok <==> data_fault(*data, "StandardScaler"@, operation@) is None
                && self.fitted() && data.dims@[1] == self.features(),
            result matches Ok(stats) ==> *stats.0 == self.statistics().0 && *stats.1
                == self.statistics().1,
            result matches Err(e) ==> e.says(
                if data_fault(*data, "StandardScaler"@, operation@) is Some {
                    data_fault(*data, "StandardScaler"@, operation@)->0
                } else if !self.fitted() {
                    unfitted("StandardScaler"@)
                } else {
                    wrong_feature_count(
                        "StandardScaler"@,
                        operation@,
                        self.features(),
                        data.dims@[1] as int,
                    )
                },
            ),
    {
        let (_, columns): (usize, usize) = match validate_data(data, "StandardScaler", operation) {
            Ok(shape) => shape,
            Err(e) => {
                return Err(e);
            },
        };
        match &self.stats {
            Some((mean, std)) => {
                if let Err(e) = validate_feature_count(
                    columns,
                    mean.dims[1],
                    "StandardScaler",
                    operation,
                ) {
                    return Err(e);
                }
                Ok((mean, std))
            },
            None => Err(
                CoreError::Msg(
                    concat2(
                        "StandardScaler",
                        " must be fitted before transform or inverse_transform",
                    ),
                ),
            ),
        }
    }
}

proof fn lemma_first_beyond_is_kept(columns: Seq<usize>, count: usize, k: int)
    requires
        0 <= k <= columns.len(),
        first_beyond(columns.take(k), count) is Some,
    ensures
        first_beyond(columns, count) == first_beyond(columns.take(k), count),
    decreases columns.len(),
{
    if k < columns.len() {
        assert(columns.drop_last().take(k) == columns.take(k));
        lemma_first_beyond_is_kept(columns.drop_last(), count, k);
    } else {
        assert(columns.take(k) == columns);
    }
}

/// A range that min-max scaling can map to.
pub open spec fn is_feature_range(range: (Scalar, Scalar)) -> bool {
    range.0.finite() && range.1.finite() && range.0.rank() < range.1.rank()
}

/// The message for a range that min-max scaling cannot map to.
pub open spec fn bad_feature_range(range: (Scalar, Scalar)) -> Seq<PieceView> {
    seq![
        PieceView::Text(
            "MinMaxScaler feature range must be finite and ordered as (min < max), got ("@,
        ),
        PieceView::Number(range.0),
        PieceView::Text(", "@),
        PieceView::Number(range.1),
        PieceView::Text(")"@),
    ]
}

fn validate_feature_range(range: (Scalar, Scalar)) -> (result: Result<(), CoreError>)
    ensures
        result is Ok <==> is_feature_range(range),
        result matches Err(e) ==> e.tells(bad_feature_range(range)),
{
    if !range.0.is_finite() || !range.1.is_finite() || range.1.at_most(range.0) {
        return Err(
            two_number_error(
                copy_of(
                    "MinMaxScaler feature range must be finite and ordered as (min < max), got (",
                ),
                range.0,
                ", ",
                range.1,
                ")",
            ),
        );
    }
    Ok(())
}

/// Scaling of each column to a range: the extremes that a fit has left.
#[derive(Debug)]
pub struct MinMaxScaler {
    stats: Option<(Tensor, Tensor)>,
    feature_range: (Scalar, Scalar),
}

impl MinMaxScaler {
    /// The range is one to map to; fitted statistics are two matrices of the same
    /// shape, and no span is zero.
    pub closed spec fn wf(&self) -> bool {
        &&& is_feature_range(self.feature_range)
        &&& match self.stats {
            Some((low, span)) => {
                &&& low.is_matrix()
                &&& span.is_matrix()
                &&& low.dims@ == span.dims@
                &&& forall|i: int|
                    0 <= i < span.values@.len() ==> (#[trigger] span.values@[i]).magnitude() != 0
            },
            None => true,
        }
    }

    pub closed spec fn fitted(&self) -> bool {
        self.stats is Some
    }

    /// The column minima and spans of a fitted scaler.
    pub closed spec fn statistics(&self) -> (Tensor, Tensor) {
        self.stats->0
    }

    pub closed spec fn range(&self) -> (Scalar, Scalar) {
        self.feature_range
    }

    /// The number of columns of a fitted scaler.
    pub open spec fn features(&self) -> int {
        self.statistics().0.dims@[1] as int
    }

    /// A scaler to the range from zero to one.
    #[must_use]
    pub fn new() -> (result: MinMaxScaler)
        ensures
            result.wf(),
            !result.fitted(),
            result.range() == (Scalar { bits: 0 }, Scalar { bits: ONE_BITS }),
    {
        MinMaxScaler { stats: None, feature_range: (Scalar::zero(), Scalar::one()) }
    }

    /// A scaler to the given range.
    pub fn with_feature_range(min: Scalar, max: Scalar) -> (result: Result<
        MinMaxScaler,
        CoreError,
    >)
        ensures
            result is Ok <==> is_feature_range((min, max)),
            result matches Ok(scaler) ==> scaler.wf() && !scaler.fitted() && scaler.range() == (
                min,
                max,
            ),
            result matches Err(e) ==> e.tells(bad_feature_range((min, max))),
    {
        if let Err(e) = validate_feature_range((min, max)) {
            return Err(e);
        }
        Ok(MinMaxScaler { stats: None, feature_range: (min, max) })
    }

    #[must_use]
    pub fn feature_range(&self) -> (result: (Scalar, Scalar))
        ensures
            result == self.range(),
    {
        self.feature_range
    }

    #[must_use]
    pub fn is_fitted(&self) -> (result: bool)
        ensures
            result == self.fitted(),
    {
        self.stats.is_some()
    }

    /// Whether data can be fitted to.
    pub fn check_fit(&self, data: &Tensor) -> (result: Result<(), CoreError>)
        ensures
            result is Ok <==> data_fault(*data, "MinMaxScaler"@, "fit"@) is None,
            result matches Err(e) ==> e.says(data_fault(*data, "MinMaxScaler"@, "fit"@)->0),
    {
        match validate_data(data, "MinMaxScaler", "fit") {
            Ok(_) => Ok(()),
            Err(e) => Err(e),
        }
    }

    /// Keeps the column minima and spans of fitted data; a span of zero becomes
    /// one.
    pub fn record_fit(&mut self, minima: Vec<Scalar>, spans: Vec<Scalar>)
        requires
            old(self).wf(),
            minima@.len() == spans@.len(),
            minima@.len() > 0,
        ensures
            final(self).wf(),
            final(self).fitted(),
            kept_as_doubles(final(self).statistics()),
            final(self).range() == old(self).range(),
            final(self).statistics().0.dims@ == seq![1usize, minima@.len() as usize],
            final(self).statistics().1.dims@ == seq![1usize, minima@.len() as usize],
            final(self).statistics().0.values@ == minima@,
            final(self).statistics().1.values@ == spans@.map_values(
                |v: Scalar| nonzero_or_one(v),
            ),
    {
        let columns: usize = minima.len();
        let safe = replace_zero_with_one(&spans);
        proof {
            assert(1 * columns == columns) by (nonlinear_arith);
        }
        let low = matrix(1, columns, minima, DType::F64, Device::Cpu);
        let span = matrix(1, columns, safe, DType::F64, Device::Cpu);
        self.stats = Some((low, span));
    }

    /// The minima and spans that `operation` applies to `data`.
    pub fn stats_for(&self, data: &Tensor, operation: &str) -> (result: Result<
        (&Tensor, &Tensor),
        CoreError,
    >)
        requires
            self.wf(),
        ensures
            result is Ok <==> data_fault(*data, "MinMaxScaler"@, operation@) is None
                && self.fitted() && data.dims@[1] == self.features(),
            result matches Ok(stats) ==> *stats.0 == self.statistics().0 && *stats.1
                == self.statistics().1,
            result matches Err(e) ==> e.says(
                if data_fault(*data, "MinMaxScaler"@, operation@) is Some {
                    data_fault(*data, "MinMaxScaler"@, operation@)->0
                } else if !self.fitted() {
                    unfitted("MinMaxScaler"@)
                } else {
                    wrong_feature_count(
                        "MinMaxScaler"@,
                        operation@,
                        self.features(),
                        data.dims@[1] as int,
                    )
                },
            ),
    {
        let (_, columns): (usize, usize) = match validate_data(data, "MinMaxScaler", operation) {
            Ok(shape) => shape,
            Err(e) => {
                return Err(e);
            },
        };
        match &self.stats {
            Some((low, span)) => {
                if let Err(e) = validate_feature_count(
                    columns,
                    low.dims[1],
                    "MinMaxScaler",
                    operation,
                ) {
                    return Err(e);
                }
                Ok((low, span))
            },
            None => Err(
                CoreError::Msg(
                    concat2(
                        "MinMaxScaler",
                        " must be fitted before transform or inverse_transform",
                    ),
                ),
            ),
        }
    }
}

proof fn lemma_unlisted(columns: Seq<usize>, column: int)
    requires
        forall|k: int| 0 <= k < columns.len() ==> (#[trigger] columns[k]) != column,
    ensures
        occurrences(columns, column) == 0,
    decreases columns.len(),
{
    if columns.len() > 0 {
        let shorter = columns.drop_last();
        assert forall|k: int| 0 <= k < shorter.len() implies (#[trigger] shorter[k]) != column by {
            assert(columns[k] != column);
        }
        assert(columns[columns.len() - 1] != column);
        lemma_unlisted(shorter, column);
    }
}

proof fn lemma_listed_once(columns: Seq<usize>, at: int)
    requires
        0 <= at < columns.len(),
        columns.no_duplicates(),
    ensures
        occurrences(columns, columns[at] as int) == 1,
    decreases columns.len(),
{
    let shorter = columns.drop_last();
    let last = columns.len() - 1;
    if at == last {
        assert forall|k: int| 0 <= k < shorter.len() implies (#[trigger] shorter[k])
            != columns[at] by {
            assert(columns[k] != columns[last]);
        }
        lemma_unlisted(shorter, columns[at] as int);
    } else {
        assert(shorter[at] == columns[at]);
        lemma_listed_once(shorter, at);
        assert(columns[last] != columns[at]);
    }
}

/// Negating columns that are listed once each turns the signs of these, and of no other.
pub proof fn listed_columns_are_negated(values: Seq<Scalar>, columns: Seq<usize>, column: int)
    requires
        0 <= column < values.len(),
        columns.no_duplicates(),
    ensures
        negated_at(values, columns).len() == values.len(),
        (exists|k: int| 0 <= k < columns.len() && (#[trigger] columns[k]) == column) ==> negated_at(
            values,
            columns,
        )[column] == values[column].flipped(),
        (forall|k: int| 0 <= k < columns.len() ==> (#[trigger] columns[k]) != column)
            ==> negated_at(values, columns)[column] == values[column],
{
    if exists|k: int| 0 <= k < columns.len() && (#[trigger] columns[k]) == column {
        let k = choose|k: int| 0 <= k < columns.len() && (#[trigger] columns[k]) == column;
        lemma_listed_once(columns, k);
    } else {
        lemma_unlisted(columns, column);
    }
}

/// A column index is refused exactly where it is not below the number of columns, and the
/// one that is named was listed.
pub proof fn columns_beyond_are_found(columns: Seq<usize>, count: usize)
    ensures
        first_beyond(columns, count) is None <==> (forall|k: int|
            0 <= k < columns.len() ==> (#[trigger] columns[k]) < count),
        first_beyond(columns, count) matches Some(column) ==> column >= count && columns.contains(
            column,
        ),
    decreases columns.len(),
{
    if columns.len() > 0 {
        let shorter = columns.drop_last();
        let last = columns.len() - 1;
        columns_beyond_are_found(shorter, count);
        assert(columns[last] == columns.last());
        assert forall|k: int| 0 <= k < shorter.len() implies #[trigger] shorter[k]
            == columns[k] by {}
        if first_beyond(shorter, count) is Some {
            let column = first_beyond(shorter, count)->0;
            let k = choose|k: int| 0 <= k < shorter.len() && shorter[k] == column;
            assert(columns[k] == column);
        }
        if first_beyond(columns, count) is None {
            assert forall|k: int| 0 <= k < columns.len() implies (#[trigger] columns[k])
                < count by {
                if k < last {
                    assert(shorter[k] < count);
                }
            }
        }
        if forall|k: int| 0 <= k < columns.len() ==> (#[trigger] columns[k]) < count {
            assert forall|k: int| 0 <= k < shorter.len() implies (#[trigger] shorter[k])
                < count by {
                assert(columns[k] < count);
            }
        }
    }
}

/// A scale that would divide by zero divides by one; every other scale is kept.
pub proof fn scales_are_never_zero(value: Scalar)
    ensures
        value.magnitude() == 0 ==> nonzero_or_one(value).bits == ONE_BITS,
        value.magnitude() != 0 ==> nonzero_or_one(value) == value,
        nonzero_or_one(value).magnitude() != 0,
{
}

/// Data can be scaled exactly where they are a matrix with rows and columns of
/// floating-point numbers, and a feature range is one exactly where it is finite and its
/// lower end is below its upper end.
pub proof fn only_float_matrices_are_scaled(
    data: Tensor,
    scaler: Seq<char>,
    operation: Seq<char>,
    range: (Scalar, Scalar),
)
    ensures
        data_fault(data, scaler, operation) is None <==> {
            &&& data.dims@.len() == 2
            &&& data.dims@[0] > 0
            &&& data.dims@[1] > 0
            &&& (data.dtype is F64 || data.dtype is F32 || data.dtype is F16 || data.dtype
                is BF16)
        },
        is_feature_range(range) <==> range.0.finite() && range.1.finite() && range.0.lt(range.1),
{
}

/// Statistics make a scaler exactly where each could be scaled itself and both have one
/// shape.
pub proof fn statistics_have_one_shape(mean: Tensor, std: Tensor)
    ensures
        stats_fault(mean, std) is None <==> {
            &&& data_fault(mean, "StandardScaler"@, "from_stats"@) is None
            &&& data_fault(std, "StandardScaler"@, "from_stats"@) is None
            &&& mean.dims@ == std.dims@
        },
{
}

/// Statistics are kept as doubles in main memory.
pub proof fn statistics_are_kept_as_doubles(statistics: (Tensor, Tensor))
    requires
        kept_as_doubles(statistics),
    ensures
        statistics.0.dtype is F64 && statistics.1.dtype is F64,
        statistics.0.device is Cpu && statistics.1.device is Cpu,
{
}

/// A range that is refused is told from its lower to its upper end.
pub proof fn refused_ranges_are_told_in_order(range: (Scalar, Scalar))
    ensures
        bad_feature_range(range).len() == 5,
        bad_feature_range(range)[1] == PieceView::Number(range.0),
        bad_feature_range(range)[3] == PieceView::Number(range.1),
{
}

} // verus!

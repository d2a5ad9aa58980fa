//! Checks of configuration values.

use super::error::{number_error, two_number_error, CoreError, PieceView};
use crate::scalar::Scalar;
use crate::text::{concat2, decimal, decimal_digits};
use vstd::prelude::*;
use vstd::string::StringExecFns;

verus! {

/// Finite and strictly greater than zero.
pub open spec fn is_positive(value: Scalar) -> bool {
    value.finite() && value.rank() > 0
}

/// Finite and not below zero.
pub open spec fn is_non_negative(value: Scalar) -> bool {
    value.finite() && value.rank() >= 0
}

/// The message for a value that is not positive.
pub open spec fn not_positive(name: Seq<char>, value: Scalar) -> Seq<PieceView> {
    seq![PieceView::Text(name + " must be finite and > 0, got "@), PieceView::Number(value)]
}

/// The message for a value that is negative or not finite.
pub open spec fn not_non_negative(name: Seq<char>, value: Scalar) -> Seq<PieceView> {
    seq![PieceView::Text(name + " must be finite and >= 0, got "@), PieceView::Number(value)]
}

/// The message for a range whose ends are in the wrong order.
pub open spec fn not_ordered(name: Seq<char>, min: Scalar, max: Scalar) -> Seq<PieceView> {
    seq![
        PieceView::Text(name + " must be ordered as (min <= max), got ("@),
        PieceView::Number(min),
        PieceView::Text(", "@),
        PieceView::Number(max),
        PieceView::Text(")"@),
    ]
}

/// Accepts a value that is finite and strictly positive.
pub fn validate_positive_f64(name: &str, value: Scalar) -> (result: Result<(), CoreError>)
    ensures
        result is Ok <==> is_positive(value),
        result matches Err(e) ==> e.tells(not_positive(name@, value)),
{
    if !value.is_finite() || value.at_most(Scalar::zero()) {
        return Err(number_error(concat2(name, " must be finite and > 0, got "), value));
    }
    Ok(())
}

/// Accepts a value that is finite and not negative.
pub fn validate_non_negative_f64(name: &str, value: Scalar) -> (result: Result<(), CoreError>)
    ensures
        result is Ok <==> is_non_negative(value),
        result matches Err(e) ==> e.tells(not_non_negative(name@, value)),
{
    if !value.is_finite() || value.less_than(Scalar::zero()) {
        return Err(number_error(concat2(name, " must be finite and >= 0, got "), value));
    }
    Ok(())
}

/// Accepts a range whose ends are positive and in order.
///
/// The lower end is judged first, then the upper end, then their order.
pub fn validate_positive_range(name: &str, range: (Scalar, Scalar)) -> (result: Result<
    (),
    CoreError,
>)
    ensures
        result is Ok <==> is_positive(range.0) && is_positive(range.1) && range.0.rank()
            <= range.1.rank(),
        result matches Err(e) ==> e.tells(if !is_positive(range.0) {
            not_positive(name@ + ".min"@, range.0)
        } else if !is_positive(range.1) {
            not_positive(name@ + ".max"@, range.1)
        } else {
            not_ordered(name@, range.0, range.1)
        }),
{
    let min_name = concat2(name, ".min");
    let max_name = concat2(name, ".max");
    if let Err(e) = validate_positive_f64(min_name.as_str(), range.0) {
        return Err(e);
    }
    if let Err(e) = validate_positive_f64(max_name.as_str(), range.1) {
        return Err(e);
    }
    validate_order(name, range)
}

/// Accepts a range whose ends are not negative and in order.
///
/// The lower end is judged first, then the upper end, then their order.
pub fn validate_non_negative_range(name: &str, range: (Scalar, Scalar)) -> (result: Result<
    (),
    CoreError,
>)
    ensures
        result is Ok <==> is_non_negative(range.0) && is_non_negative(range.1) && range.0.rank()
            <= range.1.rank(),
        result matches Err(e) ==> e.tells(if !is_non_negative(range.0) {
            not_non_negative(name@ + ".min"@, range.0)
        } else if !is_non_negative(range.1) {
            not_non_negative(name@ + ".max"@, range.1)
        } else {
            not_ordered(name@, range.0, range.1)
        }),
{
    let min_name = concat2(name, ".min");
    let max_name = concat2(name, ".max");
    if let Err(e) = validate_non_negative_f64(min_name.as_str(), range.0) {
        return Err(e);
    }
    if let Err(e) = validate_non_negative_f64(max_name.as_str(), range.1) {
        return Err(e);
    }
    validate_order(name, range)
}

fn validate_order(name: &str, range: (Scalar, Scalar)) -> (result: Result<(), CoreError>)
    ensures
        result is Ok <==> !range.1.lt(range.0),
        result matches Err(e) ==> e.tells(not_ordered(name@, range.0, range.1)),
{
    if range.1.less_than(range.0) {
        return Err(
            two_number_error(
                concat2(name, " must be ordered as (min <= max), got ("),
                range.0,
                ", ",
                range.1,
                ")",
            ),
        );
    }
    Ok(())
}

/// Accepts a count that is not zero.
pub fn validate_positive_usize(name: &str, value: usize) -> (result: Result<(), CoreError>)
    ensures
        result is Ok <==> value > 0,
        result matches Err(e) ==> e.says(name@ + " must be > 0, got 0"@),
{
    if value == 0 {
        return Err(CoreError::Msg(concat2(name, " must be > 0, got 0")));
    }
    Ok(())
}

/// A list of dimensions, as `[2, 3]`.
pub open spec fn dims_text(dims: Seq<usize>) -> Seq<char> {
    "["@ + dims_list(dims) + "]"@
}

/// Dimensions separated by commas.
pub open spec fn dims_list(dims: Seq<usize>) -> Seq<char>
    decreases dims.len(),
{
    if dims.len() == 0 {
        Seq::<char>::empty()
    } else if dims.len() == 1 {
        decimal_digits(dims[0] as nat)
    } else {
        dims_list(dims.drop_last()) + ", "@ + decimal_digits(dims.last() as nat)
    }
}

/// A list of dimensions, as `[2, 3]`.
pub fn format_dims(dims: &[usize]) -> (result: String)
    ensures
        result@ == dims_text(dims@),
{
    let mut list = String::new();
    let mut i: usize = 0;
    while i < dims.len()
        invariant
            i <= dims@.len(),
            list@ == dims_list(dims@.take(i as int)),
        decreases dims@.len() - i,
    {
        let number = decimal(dims[i] as u64);
        proof {
            let longer = dims@.take(i + 1);
            assert(longer.drop_last() == dims@.take(i as int));
            assert(longer.last() == dims@[i as int]);
        }
        if i == 0 {
            list = number;
        } else {
            list.append(", ");
            list.append(number.as_str());
        }
        i += 1;
    }
    proof {
        assert(dims@.take(dims@.len() as int) == dims@);
    }
    let opened = concat2("[", list.as_str());
    concat2(opened.as_str(), "]")
}

/// Accepts the dimensions of a matrix with at least one row and one column, and
/// returns them.
pub fn validate_2d_tensor(name: &str, dims: &[usize]) -> (result: Result<
    (usize, usize),
    CoreError,
>)
    ensures
        result is Ok <==> dims@.len() == 2 && dims@[0] > 0 && dims@[1] > 0,
        result matches Ok(shape) ==> shape == (dims@[0], dims@[1]),
        result matches Err(e) ==> e.says(
            if dims@.len() != 2 {
                name@ + " must be 2-D, got shape "@ + dims_text(dims@)
            } else {
                name@ + " must have non-empty dimensions, got shape "@ + dims_text(dims@)
            },
        ),
{
    if dims.len() != 2 {
        let mut message = concat2(name, " must be 2-D, got shape ");
        message.append(format_dims(dims).as_str());
        return Err(CoreError::Msg(message));
    }
    if dims[0] == 0 || dims[1] == 0 {
        let mut message = concat2(name, " must have non-empty dimensions, got shape ");
        message.append(format_dims(dims).as_str());
        return Err(CoreError::Msg(message));
    }
    Ok((dims[0], dims[1]))
}

/// A number is positive exactly where it is finite and above zero, and not negative where
/// it is finite and at least zero; either zero is neither positive nor negative.
pub proof fn signs_are_numeric(value: Scalar)
    ensures
        is_positive(value) <==> value.finite() && (Scalar { bits: 0 }).lt(value),
        is_non_negative(value) <==> value.finite() && (Scalar { bits: 0 }).le(value),
        is_positive(value) ==> is_non_negative(value),
        is_positive(value) ==> !is_non_negative(value.flipped()),
{
}

/// Dimensions are shown in brackets, in order, with a comma between each and the next.
pub proof fn dimensions_are_shown_in_order(dims: Seq<usize>, last: usize)
    ensures
        dims_text(Seq::<usize>::empty()) == "["@ + "]"@,
        dims_text(seq![last]) == "["@ + decimal_digits(last as nat) + "]"@,
        dims.len() > 0 ==> dims_text(dims.push(last)) == "["@ + dims_list(dims) + ", "@
            + decimal_digits(last as nat) + "]"@,
{
    assert(dims.push(last).drop_last() =~= dims);
    assert(dims_text(Seq::<usize>::empty()) =~= "["@ + "]"@);
    if dims.len() > 0 {
        assert(dims_text(dims.push(last)) =~= "["@ + dims_list(dims) + ", "@ + decimal_digits(
            last as nat,
        ) + "]"@);
    }
}

} // verus!

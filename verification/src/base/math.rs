//! Numeric helpers.

use crate::scalar::Scalar;
use vstd::prelude::*;

verus! {

/// The larger of two values; a NaN gives way to the other one.
pub open spec fn larger(a: Scalar, b: Scalar) -> Scalar {
    if a.nan() {
        b
    } else if a.lt(b) {
        b
    } else {
        a
    }
}

/// The smaller of two values; a NaN gives way to the other one.
pub open spec fn smaller(a: Scalar, b: Scalar) -> Scalar {
    if a.nan() {
        b
    } else if b.lt(a) {
        b
    } else {
        a
    }
}

/// Brings a value into the range from `lo` to `hi`.
pub fn clamp(x: Scalar, lo: Scalar, hi: Scalar) -> (result: Scalar)
    ensures
        result == smaller(larger(x, lo), hi),
{
    let raised = if x.is_nan() || x.less_than(lo) {
        lo
    } else {
        x
    };
    if raised.is_nan() || hi.less_than(raised) {
        hi
    } else {
        raised
    }
}

/// A value that has been clamped lies within the range, and one that was there
/// already is not changed.
pub proof fn clamping_lands_in_the_range(x: Scalar, lo: Scalar, hi: Scalar)
    requires
        lo.le(hi),
    ensures
        lo.le(smaller(larger(x, lo), hi)),
        smaller(larger(x, lo), hi).le(hi),
        lo.le(x) && x.le(hi) ==> smaller(larger(x, lo), hi) == x,
{
}

/// Clamping leaves a number inside the range alone and moves one beyond an end to that end.
pub proof fn clamping_moves_to_the_nearer_end(x: Scalar, lo: Scalar, hi: Scalar)
    requires
        lo.le(hi),
    ensures
        x.lt(lo) ==> smaller(larger(x, lo), hi) == lo,
        hi.lt(x) ==> smaller(larger(x, lo), hi) == hi,
        lo.le(x) && x.le(hi) ==> smaller(larger(x, lo), hi) == x,
        x.nan() ==> smaller(larger(x, lo), hi) == lo,
{
}

} // verus!

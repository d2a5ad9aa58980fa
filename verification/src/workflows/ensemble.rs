//! What an ensemble predicts: the element-wise median of its members, the
//! measurements that a refinement compares with, and the statistics of the errors.

use super::config::TrainMetricsSummary;
use super::data_prep::{feature_row, feature_rows, same_measurement, same_measurements};
use super::stacked_metrics::{
    chunk_count, chunk_end, chunk_start, chunks_cover_the_rows, CHUNK_ROWS,
};
use crate::base::error::{msg_error, CoreError};
use crate::base::metrics::{parts_in_halves, Median};
use crate::base::validation::{dims_text, format_dims};
use crate::data::complex_tensor::ComplexTensor;
use crate::data::generation::PermittivitySample;
use crate::data::tensor::{
    all_rows, equally_wide, join_columns, join_rows, narrow_columns, Tensor,
};
use crate::data::tensor_bridges::{
    packed_features, real_features, unpack_complex_features, unpack_fault,
};
use crate::model::ModelType;
use crate::scalar::{Scalar, INFINITY_BITS, ONE_BITS, TEN_BITS};
use crate::sort::{
    ascending, count_after, count_before, in_order, places_count_the_values, sort_scalars,
    sorting_only_reorders,
};
use crate::text::{concat3, decimal, decimal_digits};
use vstd::prelude::*;
use vstd::string::StringExecFns;

verus! {

/// The pattern of negative infinity.
pub const NEGATIVE_INFINITY_BITS: u64 = 0xfff0_0000_0000_0000;

/// What the members predict for one element.
pub open spec fn member_values(members: Seq<Tensor>, element: int) -> Seq<Scalar> {
    members.map_values(|t: Tensor| t.values@[element])
}

/// The middle of the values in ascending order: the middle one of an odd number,
/// halfway between the middle two of an even number.
pub open spec fn element_median(values: Seq<Scalar>) -> Median {
    let sorted = ascending(values);
    let middle = (values.len() / 2) as int;
    if values.len() % 2 == 1 {
        Median::Known(sorted[middle])
    } else {
        Median::Halfway(sorted[middle - 1], sorted[middle])
    }
}

/// The median of the members' predictions, element by element.
pub fn per_element_median(members: &Vec<Tensor>) -> (result: Result<Vec<Median>, CoreError>)
    requires
        forall|m: int|
            0 <= m < members@.len() ==> (#[trigger] members@[m]).values@.len()
                == members@[0].values@.len(),
    ensures
        result is Ok <==> members@.len() > 0,
        result matches Err(e) ==> e.says("per_element_median: empty members"@),
        result matches Ok(medians) ==> {
            &&& medians@.len() == members@[0].values@.len()
            &&& forall|e: int|
                0 <= e < medians@.len() ==> #[trigger] medians@[e] == element_median(
                    member_values(members@, e),
                )
            &&& forall|e: int|
                0 <= e < medians@.len() ==> parts_in_halves(
                    #[trigger] medians@[e],
                    Seq::new(members@.len(), |m: int| members@[m].values@[e]),
                )
        },
{
    let n: usize = members.len();
    if n == 0 {
        return Err(msg_error("per_element_median: empty members"));
    }
    let total: usize = members[0].values.len();
    let mut medians: Vec<Median> = Vec::new();
    let mut e: usize = 0;
    while e < total
        invariant
            e <= total,
            n == members@.len(),
            n > 0,
            total == members@[0].values@.len(),
            forall|m: int|
                0 <= m < members@.len() ==> (#[trigger] members@[m]).values@.len() == total,
            medians@.len() == e,
            forall|k: int|
                0 <= k < e ==> #[trigger] medians@[k] == element_median(
                    member_values(members@, k),
                ),
        decreases total - e,
    {
        let mut values: Vec<Scalar> = Vec::new();
        let mut m: usize = 0;
        while m < n
            invariant
                m <= n,
                n == members@.len(),
                e < total,
                forall|k: int|
                    0 <= k < members@.len() ==> (#[trigger] members@[k]).values@.len() == total,
                values@ == member_values(members@, e as int).take(m as int),
            decreases n - m,
        {
            values.push(members[m].values[e]);
            proof {
                assert(member_values(members@, e as int).take(m + 1) == member_values(
                    members@,
                    e as int,
                ).take(m as int).push(members@[m as int].values@[e as int]));
            }
            m += 1;
        }
        proof {
            assert(member_values(members@, e as int).take(n as int) == member_values(
                members@,
                e as int,
            ));
        }
        let sorted = sort_scalars(values.as_slice());
        let middle: usize = n / 2;
        let median = if n % 2 == 1 {
            Median::Known(sorted[middle])
        } else {
            Median::Halfway(sorted[middle - 1], sorted[middle])
        };
        medians.push(median);
        e += 1;
    }
    proof {
        assert forall|e: int| 0 <= e < medians@.len() implies parts_in_halves(
            #[trigger] medians@[e],
            Seq::new(members@.len(), |m: int| members@[m].values@[e]),
        ) by {
            let column = Seq::new(members@.len(), |m: int| members@[m].values@[e]);
            assert(member_values(members@, e) =~= column);
            medians_part_the_members_in_halves(column);
        }
    }
    Ok(medians)
}

/// The median of an odd number of members is what one of them predicts, and no
/// more members lie below it than above: half of them come no later in order, and
/// half no earlier.
pub proof fn odd_median_is_a_prediction(values: Seq<Scalar>)
    requires
        values.len() % 2 == 1,
    ensures
        element_median(values) is Known,
        values.contains(element_median(values)->Known_0),
        forall|i: int|
            0 <= i <= values.len() / 2 ==> (#[trigger] ascending(values)[i]).total_rank()
                <= element_median(values)->Known_0.total_rank(),
        forall|i: int|
            values.len() / 2 <= i < values.len() ==> (#[trigger] ascending(
                values,
            )[i]).total_rank() >= element_median(values)->Known_0.total_rank(),
{
    sorting_only_reorders(values);
    let sorted = ascending(values);
    let middle = (values.len() / 2) as int;
    assert(sorted.contains(sorted[middle]));
    assert forall|i: int| 0 <= i < values.len() implies (i <= middle
        ==> (#[trigger] sorted[i]).total_rank() <= sorted[middle].total_rank()) && (i >= middle
        ==> sorted[i].total_rank() >= sorted[middle].total_rank()) by {
        if i <= middle {
            lemma_ordered(sorted, i, middle);
        }
        if i >= middle {
            lemma_ordered(sorted, middle, i);
        }
    }
}

/// The two values that the median of an even number of members lies between are
/// predictions of members, in order.
pub proof fn even_median_is_between_predictions(values: Seq<Scalar>)
    requires
        values.len() % 2 == 0,
        values.len() > 0,
    ensures
        element_median(values) is Halfway,
        values.contains(element_median(values)->Halfway_0),
        values.contains(element_median(values)->Halfway_1),
        element_median(values)->Halfway_0.total_rank() <= element_median(
            values,
        )->Halfway_1.total_rank(),
{
    sorting_only_reorders(values);
    let sorted = ascending(values);
    let middle = (values.len() / 2) as int;
    assert(sorted.contains(sorted[middle]));
    assert(sorted.contains(sorted[middle - 1]));
    lemma_ordered(sorted, middle - 1, middle);
}

/// The median of the members is the middle of what they predict, whatever order they are
/// listed in. Of an odd number it is a prediction with no more than half of the others on
/// either side. Of an even number it lies halfway between two predictions that part the
/// members in halves: fewer than half come before the lower one and no more than half
/// after it, fewer than half after the upper one and no more than half before it, and
/// none between the two.
pub proof fn medians_part_the_members_in_halves(values: Seq<Scalar>)
    requires
        values.len() > 0,
    ensures
        match element_median(values) {
            Median::Known(middle) => {
                &&& values.len() % 2 == 1
                &&& values.contains(middle)
                &&& count_before(values, middle) <= values.len() / 2
                &&& count_after(values, middle) <= values.len() / 2
            },
            Median::Halfway(lower, upper) => {
                &&& values.len() % 2 == 0
                &&& values.contains(lower)
                &&& values.contains(upper)
                &&& lower.total_rank() <= upper.total_rank()
                &&& count_before(values, lower) < values.len() / 2
                &&& count_after(values, lower) <= values.len() / 2
                &&& count_after(values, upper) < values.len() / 2
                &&& count_before(values, upper) <= values.len() / 2
                &&& forall|i: int|
                    0 <= i < values.len() ==> !(lower.total_rank() < (
                    #[trigger] values[i]).total_rank() < upper.total_rank())
            },
        },
{
    sorting_only_reorders(values);
    let sorted = ascending(values);
    let middle = (values.len() / 2) as int;
    places_count_the_values(values, middle);
    if values.len() % 2 == 0 {
        places_count_the_values(values, middle - 1);
        lemma_ordered(sorted, middle - 1, middle);
        assert forall|i: int| 0 <= i < values.len() implies !(sorted[middle - 1].total_rank() < (
        #[trigger] values[i]).total_rank() < sorted[middle].total_rank()) by {
            assert(values.contains(values[i]));
            assert(sorted.contains(values[i]));
            let k = choose|k: int| 0 <= k < sorted.len() && sorted[k] == values[i];
            if k < middle {
                lemma_ordered(sorted, k, middle - 1);
            } else {
                lemma_ordered(sorted, middle, k);
            }
        }
    }
}

/// What the members predict for an element is the value of each at that element, in
/// their order.
pub proof fn members_speak_for_the_element(members: Seq<Tensor>, element: int)
    ensures
        member_values(members, element).len() == members.len(),
        forall|m: int|
            0 <= m < members.len() ==> #[trigger] member_values(members, element)[m]
                == members[m].values@[element],
{
}

proof fn lemma_ordered(sorted: Seq<Scalar>, i: int, j: int)
    requires
        in_order(sorted),
        0 <= i <= j < sorted.len(),
    ensures
        sorted[i].total_rank() <= sorted[j].total_rank(),
{
}

/// The real parts of the scattering parameters in a row of features: packed rows
/// have them first, plain rows have real and imaginary parts in turn.
pub open spec fn measured_real(row: Seq<Scalar>, is_complex: bool) -> Seq<Scalar> {
    if is_complex {
        row.subrange(0, 2)
    } else {
        seq![row[0], row[2]]
    }
}

/// The imaginary parts of the scattering parameters in a row of features.
pub open spec fn measured_imag(row: Seq<Scalar>, is_complex: bool) -> Seq<Scalar> {
    if is_complex {
        row.subrange(2, 4)
    } else {
        seq![row[1], row[3]]
    }
}

/// Why features do not hold two scattering parameters, if they do not.
pub open spec fn measurement_fault(features: Tensor, is_complex: bool) -> Option<Seq<char>> {
    if is_complex {
        unpack_fault(features, 2)
    } else if features.dims@[1] < 4 {
        Some(
            "narrow invalid args start + len > dim_len: "@ + dims_text(features.dims@)
                + ", dim: 1, start: "@ + decimal_digits(features.dims@[1] as nat) + ", len:1"@,
        )
    } else {
        None
    }
}

/// The measured scattering parameters that features hold, in either layout.
pub fn build_s_measured(features: &Tensor, is_complex: bool) -> (result: Result<
    ComplexTensor,
    CoreError,
>)
    requires
        features.wf(),
        features.dims@.len() == 2,
    ensures
        result is Ok <==> measurement_fault(*features, is_complex) is None,
        result matches Err(e) ==> e.says(measurement_fault(*features, is_complex)->0),
        result matches Ok(measured) ==> {
            &&& measured.wf()
            &&& measured.real.dims@ == seq![features.dims@[0], 2usize]
            &&& measured.imag.dims@ == seq![features.dims@[0], 2usize]
            &&& measured.real.rows() == features.rows().map_values(
                |row: Seq<Scalar>| measured_real(row, is_complex),
            )
            &&& measured.imag.rows() == features.rows().map_values(
                |row: Seq<Scalar>| measured_imag(row, is_complex),
            )
            &&& measured.real.dtype == features.dtype
            &&& measured.imag.dtype == features.dtype
            &&& measured.real.device == features.device
            &&& measured.imag.device == features.device
        },
{
    if is_complex {
        let result = unpack_complex_features(features, 2);
        proof {
            if result is Ok {
                let z = result->Ok_0;
                assert(z.real.rows() =~= features.rows().map_values(
                    |row: Seq<Scalar>| measured_real(row, is_complex),
                ));
                assert(z.imag.rows() =~= features.rows().map_values(
                    |row: Seq<Scalar>| measured_imag(row, is_complex),
                ));
            }
        }
        return result;
    }
    if features.dims[1] < 4 {
        let shape = format_dims(features.dims.as_slice());
        let start = decimal(features.dims[1] as u64);
        let mut message = concat3(
            "narrow invalid args start + len > dim_len: ",
            shape.as_str(),
            ", dim: 1, start: ",
        );
        message.append(start.as_str());
        message.append(", len:1");
        return Err(CoreError::Msg(message));
    }
    let c0 = narrow_columns(features, 0, 1);
    let c1 = narrow_columns(features, 1, 1);
    let c2 = narrow_columns(features, 2, 1);
    let c3 = narrow_columns(features, 3, 1);
    let re = join_columns(&c0, &c2);
    let im = join_columns(&c1, &c3);
    proof {
        crate::data::tensor::lemma_matrix_size(*features);
        assert forall|r: int| 0 <= r < features.dims@[0] implies (#[trigger] re.rows()[r])
            == measured_real(features.rows()[r], false) && im.rows()[r] == measured_imag(
            features.rows()[r],
            false,
        ) by {
            let row = features.rows()[r];
            crate::data::tensor::lemma_row_bounds(
                features.dims@[1] as int,
                features.dims@[0] as int,
                r,
            );
            assert(c0.rows()[r] == row.subrange(0, 1));
            assert(c1.rows()[r] == row.subrange(1, 2));
            assert(c2.rows()[r] == row.subrange(2, 3));
            assert(c3.rows()[r] == row.subrange(3, 4));
            assert(re.rows()[r] =~= measured_real(row, false));
            assert(im.rows()[r] =~= measured_imag(row, false));
        }
        assert(re.rows() =~= features.rows().map_values(
            |row: Seq<Scalar>| measured_real(row, is_complex),
        ));
        assert forall|r: int| 0 <= r < features.dims@[0] implies (#[trigger] im.rows()[r])
            == measured_imag(features.rows()[r], false) by {
            assert(re.rows()[r] == measured_real(features.rows()[r], false));
        }
        assert(im.rows() =~= features.rows().map_values(
            |row: Seq<Scalar>| measured_imag(row, is_complex),
        ));
    }
    Ok(ComplexTensor::new_unchecked(re, im))
}

/// A refinement compares with the same measurements whichever layout the model
/// takes its features in.
pub proof fn layouts_measure_alike(s: PermittivitySample)
    ensures
        measured_real(packed_features(s), true) == measured_real(real_features(s), false),
        measured_imag(packed_features(s), true) == measured_imag(real_features(s), false),
{
    assert(measured_real(packed_features(s), true) =~= measured_real(real_features(s), false));
    assert(measured_imag(packed_features(s), true) =~= measured_imag(real_features(s), false));
}

/// Whichever layout a model takes its features in, a refinement compares with the
/// scattering parameters of the sample: reflection first, then transmission, real parts
/// with real parts and imaginary parts with imaginary parts.
pub proof fn measurements_are_the_samples_own(s: PermittivitySample)
    ensures
        measured_real(packed_features(s), true) == seq![s.s11_real, s.s21_real],
        measured_imag(packed_features(s), true) == seq![s.s11_imag, s.s21_imag],
        measured_real(real_features(s), false) == seq![s.s11_real, s.s21_real],
        measured_imag(real_features(s), false) == seq![s.s11_imag, s.s21_imag],
{
    assert(measured_real(packed_features(s), true) =~= seq![s.s11_real, s.s21_real]);
    assert(measured_imag(packed_features(s), true) =~= seq![s.s11_imag, s.s21_imag]);
}

/// The predictions of the chunks, put together again.
pub fn join_chunks(re: &Vec<Tensor>, im: &Vec<Tensor>) -> (result: Result<ComplexTensor, CoreError>)
    requires
        re@.len() == im@.len(),
        equally_wide(re@),
        equally_wide(im@),
        all_rows(re@).len() <= usize::MAX,
        all_rows(im@).len() <= usize::MAX,
    ensures
        result is Ok <==> re@.len() > 0,
        result matches Err(e) ==> e.says("cat expects at least one tensor"@),
        result matches Ok(joined) ==> {
            &&& joined.wf()
            &&& joined.real.rows() == all_rows(re@)
            &&& joined.imag.rows() == all_rows(im@)
            &&& joined.real.dims@ == seq![all_rows(re@).len() as usize, re@[0].dims@[1]]
            &&& joined.imag.dims@ == seq![all_rows(im@).len() as usize, im@[0].dims@[1]]
            &&& joined.real.dtype == re@[0].dtype
            &&& joined.imag.dtype == im@[0].dtype
            &&& joined.real.device == re@[0].device
            &&& joined.imag.device == im@[0].device
        },
{
    if re.len() == 0 {
        return Err(msg_error("cat expects at least one tensor"));
    }
    Ok(ComplexTensor::new_unchecked(join_rows(re), join_rows(im)))
}

/// Rows cut into the chunks of a test set, the first `count` of them.
pub open spec fn chunked<A>(rows: Seq<A>, count: nat) -> Seq<A>
    decreases count,
{
    if count == 0 {
        Seq::<A>::empty()
    } else {
        let k = count - 1;
        chunked(rows, k as nat) + rows.subrange(chunk_start(k), chunk_end(rows.len() as usize, k))
    }
}

/// Chunk after chunk, the rows of a test set come out in order and complete.
pub proof fn chunks_rejoin<A>(rows: Seq<A>)
    requires
        rows.len() <= usize::MAX,
    ensures
        chunked(rows, chunk_count(rows.len() as usize) as nat) == rows,
{
    let n = rows.len() as usize;
    let count = chunk_count(n);
    if count > 0 {
        chunks_cover_the_rows(n, count - 1);
        lemma_chunked(rows, count as nat);
        assert(rows.subrange(0, n as int) =~= rows);
    } else {
        assert(rows =~= Seq::<A>::empty());
    }
}

proof fn lemma_chunked<A>(rows: Seq<A>, count: nat)
    requires
        rows.len() <= usize::MAX,
        0 < count <= chunk_count(rows.len() as usize),
    ensures
        chunked(rows, count) == rows.subrange(0, chunk_end(rows.len() as usize, count - 1)),
    decreases count,
{
    let n = rows.len() as usize;
    let k = count - 1;
    chunks_cover_the_rows(n, k);
    if k > 0 {
        chunks_cover_the_rows(n, k - 1);
        lemma_chunked(rows, k as nat);
    } else {
        assert(chunked(rows, 0) =~= Seq::<A>::empty());
    }
    assert(chunked(rows, count) =~= rows.subrange(0, chunk_end(n, k)));
}

/// What is predicted of the first `count` chunks of rows, one after the other. `predict`
/// stands for what the members, their median and its refinement make of a chunk.
pub open spec fn stacked_rows(
    predict: spec_fn(Seq<Seq<Scalar>>) -> Seq<Seq<Scalar>>,
    rows: Seq<Seq<Scalar>>,
    count: nat,
) -> Seq<Seq<Scalar>>
    decreases count,
{
    if count == 0 {
        Seq::<Seq<Scalar>>::empty()
    } else {
        let k = count - 1;
        stacked_rows(predict, rows, k as nat) + predict(chunk_of(rows, k))
    }
}

/// A chunk of rows.
pub open spec fn chunk_of(rows: Seq<Seq<Scalar>>, k: int) -> Seq<Seq<Scalar>> {
    rows.subrange(chunk_start(k), chunk_end(rows.len() as usize, k))
}

proof fn lemma_stacked_rows(
    predict: spec_fn(Seq<Seq<Scalar>>) -> Seq<Seq<Scalar>>,
    rows: Seq<Seq<Scalar>>,
    parts: Seq<Tensor>,
    count: nat,
)
    requires
        rows.len() <= usize::MAX,
        count <= chunk_count(rows.len() as usize),
        parts.len() == count,
        forall|chunk: Seq<Seq<Scalar>>| (#[trigger] predict(chunk)).len() == chunk.len(),
        forall|k: int|
            0 <= k < count ==> (#[trigger] parts[k]).rows() == predict(chunk_of(rows, k)),
    ensures
        all_rows(parts) == stacked_rows(predict, rows, count),
        count > 0 ==> all_rows(parts).len() == chunk_end(rows.len() as usize, count - 1),
        forall|k: int, r: int|
            0 <= k < count && 0 <= r < predict(chunk_of(rows, k)).len() ==> all_rows(
                parts,
            )[chunk_start(k) + r] == #[trigger] predict(chunk_of(rows, k))[r],
    decreases count,
{
    if count > 0 {
        let last = count - 1;
        let n = rows.len() as usize;
        let before = parts.drop_last();
        assert forall|k: int| 0 <= k < last implies (#[trigger] before[k]).rows() == predict(
            chunk_of(rows, k),
        ) by {
            assert(before[k] == parts[k]);
        }
        lemma_stacked_rows(predict, rows, before, last as nat);
        chunks_cover_the_rows(n, last);
        if last > 0 {
            chunks_cover_the_rows(n, last - 1);
        }
        let head = all_rows(before);
        assert(head.len() == chunk_start(last));
        assert(all_rows(parts) == head + predict(chunk_of(rows, last)));
        assert forall|k: int, r: int|
            0 <= k < count && 0 <= r < predict(chunk_of(rows, k)).len() implies all_rows(
            parts,
        )[chunk_start(k) + r] == #[trigger] predict(chunk_of(rows, k))[r] by {
            chunks_cover_the_rows(n, k);
            if k < last {
                chunks_cover_the_rows(n, last - 1);
                assert(chunk_start(k + 1) <= chunk_start(last)) by (nonlinear_arith)
                    requires
                        k + 1 <= last,
                        chunk_start(k + 1) == (k + 1) * CHUNK_ROWS,
                        chunk_start(last) == last * CHUNK_ROWS,
                ;
                assert(head[chunk_start(k) + r] == predict(chunk_of(rows, k))[r]);
            }
        }
    }
}

/// Stacked predictions have one row per test sample, in order, and see nothing of a
/// sample but its scattering parameters. `parts` are the predictions of the chunks, and
/// `predict` stands for what the members, their median and its refinement make of the
/// features of a chunk: as many rows as it has.
pub proof fn stacked_predictions_follow_the_measurements(
    predict: spec_fn(Seq<Seq<Scalar>>) -> Seq<Seq<Scalar>>,
    model_type: ModelType,
    first: Seq<PermittivitySample>,
    second: Seq<PermittivitySample>,
    parts: Seq<Tensor>,
)
    requires
        first.len() <= usize::MAX,
        same_measurements(first, second),
        forall|chunk: Seq<Seq<Scalar>>| (#[trigger] predict(chunk)).len() == chunk.len(),
        parts.len() == chunk_count(first.len() as usize),
        forall|k: int|
            0 <= k < parts.len() ==> (#[trigger] parts[k]).rows() == predict(
                chunk_of(feature_rows(model_type, first), k),
            ),
    ensures
        all_rows(parts).len() == first.len(),
        all_rows(parts) == stacked_rows(predict, feature_rows(model_type, second), parts.len()),
        forall|k: int, r: int|
            0 <= k < parts.len() && 0 <= r < chunk_of(
                feature_rows(model_type, first),
                k,
            ).len() ==> all_rows(parts)[chunk_start(k) + r] == #[trigger] predict(
                chunk_of(feature_rows(model_type, second), k),
            )[r],
{
    let rows = feature_rows(model_type, first);
    assert(feature_rows(model_type, second) =~= rows) by {
        assert forall|i: int| 0 <= i < first.len() implies feature_row(
            model_type,
            #[trigger] first[i],
        ) == feature_row(model_type, second[i]) by {
            assert(same_measurement(first[i], second[i]));
        }
    }
    lemma_stacked_rows(predict, rows, parts, parts.len());
    let n = first.len() as usize;
    let count = chunk_count(n);
    if count > 0 {
        chunks_cover_the_rows(n, count - 1);
    } else {
        chunks_rejoin(rows);
        assert(all_rows(parts).len() == 0);
        assert(chunked(rows, 0).len() == 0);
    }
}

/// The largest of the values that are numbers, by running through them; negative
/// infinity where there is none.
pub open spec fn running_max(values: Seq<Scalar>) -> Scalar
    decreases values.len(),
{
    if values.len() == 0 {
        Scalar { bits: NEGATIVE_INFINITY_BITS }
    } else {
        let before = running_max(values.drop_last());
        if before.lt(values.last()) {
            values.last()
        } else {
            before
        }
    }
}

/// The smallest of the values that are numbers, by running through them; infinity
/// where there is none.
pub open spec fn running_min(values: Seq<Scalar>) -> Scalar
    decreases values.len(),
{
    if values.len() == 0 {
        Scalar { bits: INFINITY_BITS }
    } else {
        let before = running_min(values.drop_last());
        if values.last().lt(before) {
            values.last()
        } else {
            before
        }
    }
}

/// How many values are at most `limit`.
pub open spec fn count_within(values: Seq<Scalar>, limit: Scalar) -> nat
    decreases values.len(),
{
    if values.len() == 0 {
        0
    } else {
        count_within(values.drop_last(), limit) + if values.last().le(limit) {
            1nat
        } else {
            0nat
        }
    }
}

/// Statistics of relative errors in percent.
#[derive(Clone, Copy, Debug, PartialEq, Eq, Structural)]
pub struct ErrorStatistics {
    pub count: usize,
    pub ok_at_1: usize,
    pub ok_at_10: usize,
    pub max: Scalar,
    pub min: Scalar,
    /// The median; the lower of the two middle values of an even number.
    pub median: Scalar,
}

/// The statistics of relative errors, given in percent.
pub fn metrics_from_relative_error(percent: &Vec<Scalar>) -> (result: Result<
    ErrorStatistics,
    CoreError,
>)
    ensures
        result is Ok <==> percent@.len() > 0,
        result matches Err(e) ==> e.says(
            "metrics_from_relative_error: empty relative-error tensor"@,
        ),
        result matches Ok(stats) ==> {
            &&& stats.count == percent@.len()
            &&& stats.ok_at_1 == count_within(percent@, Scalar { bits: ONE_BITS })
            &&& stats.ok_at_10 == count_within(percent@, Scalar { bits: TEN_BITS })
            &&& stats.max == running_max(percent@)
            &&& stats.min == running_min(percent@)
            &&& stats.median == ascending(percent@)[(percent@.len() - 1) / 2]
        },
{
    let n: usize = percent.len();
    if n == 0 {
        return Err(msg_error("metrics_from_relative_error: empty relative-error tensor"));
    }
    let one = Scalar::from_bits(ONE_BITS);
    let ten = Scalar::from_bits(TEN_BITS);
    let mut max = Scalar::from_bits(NEGATIVE_INFINITY_BITS);
    let mut min = Scalar::from_bits(INFINITY_BITS);
    let mut ok_at_1: usize = 0;
    let mut ok_at_10: usize = 0;
    let mut i: usize = 0;
    proof {
        assert(percent@.take(0) == Seq::<Scalar>::empty());
    }
    while i < n
        invariant
            i <= n,
            n == percent@.len(),
            one == (Scalar { bits: ONE_BITS }),
            ten == (Scalar { bits: TEN_BITS }),
            ok_at_1 <= i,
            ok_at_10 <= i,
            max == running_max(percent@.take(i as int)),
            min == running_min(percent@.take(i as int)),
            ok_at_1 == count_within(percent@.take(i as int), one),
            ok_at_10 == count_within(percent@.take(i as int), ten),
        decreases n - i,
    {
        let value = percent[i];
        proof {
            assert(percent@.take(i + 1).drop_last() == percent@.take(i as int));
            assert(percent@.take(i + 1).last() == value);
        }
        if max.less_than(value) {
            max = value;
        }
        if value.less_than(min) {
            min = value;
        }
        if value.at_most(one) {
            ok_at_1 += 1;
        }
        if value.at_most(ten) {
            ok_at_10 += 1;
        }
        i += 1;
    }
    proof {
        assert(percent@.take(n as int) == percent@);
    }
    let sorted = sort_scalars(percent.as_slice());
    let median = sorted[(n - 1) / 2];
    Ok(ErrorStatistics { count: n, ok_at_1, ok_at_10, max, min, median })
}

/// What the stacked pipeline reports of its errors. `mean` and the two shares of good
/// predictions, in percent, come out of arithmetic on them. Scores, epochs and times
/// belong to a training run and are zero.
pub fn stacked_summary(
    stats: &ErrorStatistics,
    ok_at_1pct: Scalar,
    ok_at_10pct: Scalar,
    mean: Scalar,
) -> (result: TrainMetricsSummary)
    ensures
        result == (TrainMetricsSummary {
            ok_at_1pct,
            ok_at_10pct,
            mean_error: mean,
            max_error: stats.max,
            min_error: stats.min,
            median_error: stats.median,
            r2_real: Scalar { bits: 0 },
            r2_imag: Scalar { bits: 0 },
            best_epoch: 0,
            final_epoch: 0,
            stopped_early: false,
            training_time_secs: Scalar { bits: 0 },
        }),
{
    let zero = Scalar::from_bits(0);
    TrainMetricsSummary {
        ok_at_1pct,
        ok_at_10pct,
        mean_error: mean,
        max_error: stats.max,
        min_error: stats.min,
        median_error: stats.median,
        r2_real: zero,
        r2_imag: zero,
        best_epoch: 0,
        final_epoch: 0,
        stopped_early: false,
        training_time_secs: zero,
    }
}

/// No number among the values is beyond the running maximum or minimum, and each
/// of the two is one of the values or the infinity it started from.
pub proof fn extremes_bound_the_numbers(values: Seq<Scalar>, i: int)
    requires
        0 <= i < values.len(),
    ensures
        !running_max(values).lt(values[i]),
        !values[i].lt(running_min(values)),
        running_max(values).bits == NEGATIVE_INFINITY_BITS || values.contains(running_max(values)),
        running_min(values).bits == INFINITY_BITS || values.contains(running_min(values)),
    decreases values.len(),
{
    let shorter = values.drop_last();
    let last = values.last();
    assert(values.contains(last)) by {
        assert(values[values.len() - 1] == last);
    }
    if i < shorter.len() {
        extremes_bound_the_numbers(shorter, i);
        assert(shorter[i] == values[i]);
    }
    lemma_extremes_are_values(values);
}

proof fn lemma_extremes_are_values(values: Seq<Scalar>)
    ensures
        running_max(values).bits == NEGATIVE_INFINITY_BITS || values.contains(running_max(values)),
        running_min(values).bits == INFINITY_BITS || values.contains(running_min(values)),
        !running_max(values).nan(),
        !running_min(values).nan(),
    decreases values.len(),
{
    if values.len() > 0 {
        let shorter = values.drop_last();
        lemma_extremes_are_values(shorter);
        assert(values[values.len() - 1] == values.last());
        assert forall|v: Scalar| shorter.contains(v) implies values.contains(v) by {
            let k = choose|k: int| 0 <= k < shorter.len() && shorter[k] == v;
            assert(values[k] == v);
        }
    }
}

/// A prediction within one percent is within ten.
pub proof fn counts_are_nested(values: Seq<Scalar>)
    ensures
        count_within(values, Scalar { bits: ONE_BITS }) <= count_within(
            values,
            Scalar { bits: TEN_BITS },
        ) <= values.len(),
    decreases values.len(),
{
    if values.len() > 0 {
        counts_are_nested(values.drop_last());
    }
}

/// The count of values within a limit is that of the values which are at most the limit,
/// wherever they stand.
pub proof fn counts_are_of_the_values_within(values: Seq<Scalar>, limit: Scalar)
    ensures
        count_within(values, limit) == values.filter(|v: Scalar| v.le(limit)).len(),
    decreases values.len(),
{
    reveal(Seq::filter);
    if values.len() > 0 {
        counts_are_of_the_values_within(values.drop_last(), limit);
    }
}

/// The reported median is an error with fewer than half of the errors before it and no
/// more than half after it. Where there is a number among the errors, the reported
/// extremes are errors that no number lies beyond.
pub proof fn statistics_describe_the_errors(percent: Seq<Scalar>)
    requires
        percent.len() > 0,
    ensures
        ({
            let median = ascending(percent)[(percent.len() - 1) / 2];
            &&& percent.contains(median)
            &&& 2 * count_before(percent, median) < percent.len()
            &&& 2 * count_after(percent, median) <= percent.len()
        }),
        !running_max(percent).nan(),
        !running_min(percent).nan(),
        forall|i: int|
            0 <= i < percent.len() && !(#[trigger] percent[i]).nan() ==> running_min(percent).le(
                percent[i],
            ) && percent[i].le(running_max(percent)),
{
    places_count_the_values(percent, (percent.len() - 1) / 2);
    lemma_extremes_are_values(percent);
    assert forall|i: int| 0 <= i < percent.len() && !(#[trigger] percent[i]).nan() implies
        running_min(percent).le(percent[i]) && percent[i].le(running_max(percent)) by {
        extremes_bound_the_numbers(percent, i);
    }
}

/// Measurements are taken from features that have a column for each of their four numbers;
/// packed ones have exactly these.
pub proof fn measurements_need_four_columns(features: Tensor)
    requires
        features.dims@.len() == 2,
    ensures
        measurement_fault(features, true) is None <==> features.dims@[1] == 4,
        measurement_fault(features, false) is None <==> features.dims@[1] >= 4,
{
}

/// An extreme gives way only to a value beyond it: of equal values the first one is kept.
pub proof fn extremes_keep_the_first_of_equals(values: Seq<Scalar>, next: Scalar)
    ensures
        running_min(values.push(next)) == if next.lt(running_min(values)) {
            next
        } else {
            running_min(values)
        },
        running_max(values.push(next)) == if running_max(values).lt(next) {
            next
        } else {
            running_max(values)
        },
{
    assert(values.push(next).drop_last() =~= values);
}

} // verus!

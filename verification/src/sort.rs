//! Values in ascending total order.

use crate::scalar::Scalar;
use vstd::prelude::*;
use vstd::seq_lib::{to_multiset_build, to_multiset_contains, to_multiset_len};

verus! {

/// Each value is at or after the ones before it, in the total order.
pub open spec fn in_order(s: Seq<Scalar>) -> bool {
    forall|i: int, j: int|
        0 <= i <= j < s.len() ==> #[trigger] s[i].total_rank() <= #[trigger] s[j].total_rank()
}

/// Each value is after the ones before it, in the total order.
pub open spec fn strictly_in_order(s: Seq<Scalar>) -> bool {
    forall|i: int, j: int|
        0 <= i < j < s.len() ==> #[trigger] s[i].total_rank() < #[trigger] s[j].total_rank()
}

/// The values of `s`, ascending in the total order.
pub open spec fn ascending(s: Seq<Scalar>) -> Seq<Scalar> {
    s.sort_by(|a: Scalar, b: Scalar| a.total_rank() <= b.total_rank())
}

proof fn lemma_push_to_sum(whole: Seq<Scalar>, a: Seq<Scalar>, b: Seq<Scalar>, v: Scalar)
    requires
        whole.to_multiset() == a.to_multiset().add(b.to_multiset()),
    ensures
        whole.push(v).to_multiset() == a.push(v).to_multiset().add(b.to_multiset()),
        whole.push(v).to_multiset() == a.to_multiset().add(b.push(v).to_multiset()),
{
    broadcast use vstd::multiset::group_multiset_axioms;

    to_multiset_build(whole, v);
    to_multiset_build(a, v);
    to_multiset_build(b, v);
    assert(whole.push(v).to_multiset() =~= a.push(v).to_multiset().add(b.to_multiset()));
    assert(whole.push(v).to_multiset() =~= a.to_multiset().add(b.push(v).to_multiset()));
}

fn merge(a: &Vec<Scalar>, b: &Vec<Scalar>) -> (result: Vec<Scalar>)
    requires
        in_order(a@),
        in_order(b@),
    ensures
        in_order(result@),
        result@.to_multiset() == a@.to_multiset().add(b@.to_multiset()),
{
    broadcast use vstd::multiset::group_multiset_axioms;

    let mut result: Vec<Scalar> = Vec::new();
    let mut i: usize = 0;
    let mut j: usize = 0;
    proof {
        assert(a@.take(0) == Seq::<Scalar>::empty());
        assert(b@.take(0) == Seq::<Scalar>::empty());
        Seq::<Scalar>::empty().to_multiset_ensures();
        to_multiset_len(Seq::<Scalar>::empty());
        assert(result@.to_multiset() =~= a@.take(0).to_multiset().add(b@.take(0).to_multiset()));
    }
    while i < a.len() || j < b.len()
        invariant
            i <= a@.len(),
            j <= b@.len(),
            in_order(a@),
            in_order(b@),
            in_order(result@),
            result@.to_multiset() == a@.take(i as int).to_multiset().add(
                b@.take(j as int).to_multiset(),
            ),
            result@.len() > 0 && i < a@.len() ==> result@.last().total_rank()
                <= a@[i as int].total_rank(),
            result@.len() > 0 && j < b@.len() ==> result@.last().total_rank()
                <= b@[j as int].total_rank(),
        decreases a@.len() - i + b@.len() - j,
    {
        let ghost before = result@;
        if j == b.len() || (i < a.len() && !b[j].precedes(a[i])) {
            let v = a[i];
            result.push(v);
            proof {
                assert(a@.take(i + 1) == a@.take(i as int).push(v));
                lemma_push_to_sum(before, a@.take(i as int), b@.take(j as int), v);
            }
            i += 1;
        } else {
            let v = b[j];
            result.push(v);
            proof {
                assert(b@.take(j + 1) == b@.take(j as int).push(v));
                lemma_push_to_sum(before, a@.take(i as int), b@.take(j as int), v);
            }
            j += 1;
        }
    }
    proof {
        assert(a@.take(a@.len() as int) == a@);
        assert(b@.take(b@.len() as int) == b@);
    }
    result
}

fn sort_range(values: &[Scalar], from: usize, to: usize) -> (result: Vec<Scalar>)
    requires
        from <= to <= values@.len(),
    ensures
        in_order(result@),
        result@.to_multiset() == values@.subrange(from as int, to as int).to_multiset(),
    decreases to - from,
{
    if to - from < 2 {
        let mut result: Vec<Scalar> = Vec::new();
        if from < to {
            result.push(values[from]);
        }
        proof {
            assert(result@ == values@.subrange(from as int, to as int));
        }
        result
    } else {
        let middle: usize = from + (to - from) / 2;
        let left = sort_range(values, from, middle);
        let right = sort_range(values, middle, to);
        proof {
            let whole = values@.subrange(from as int, to as int);
            let first = values@.subrange(from as int, middle as int);
            let second = values@.subrange(middle as int, to as int);
            assert(whole == first + second);
            vstd::seq_lib::lemma_multiset_commutative(first, second);
        }
        merge(&left, &right)
    }
}

proof fn lemma_ascending(s: Seq<Scalar>, t: Seq<Scalar>)
    requires
        in_order(t),
        s.to_multiset() == t.to_multiset(),
    ensures
        t == ascending(s),
{
    let leq = |a: Scalar, b: Scalar| a.total_rank() <= b.total_rank();
    assert(vstd::relations::total_ordering(leq)) by {
        assert forall|a: Scalar, b: Scalar|
            #[trigger] leq(a, b) && #[trigger] leq(b, a) implies a == b by {
            crate::scalar::total_rank_is_injective(a, b);
        }
    }
    s.lemma_sort_by_ensures(leq);
    vstd::seq_lib::lemma_sorted_unique(t, ascending(s), leq);
}

/// Sorting only reorders: the ascending values are in order, and are the values
/// themselves.
pub proof fn sorting_only_reorders(s: Seq<Scalar>)
    ensures
        in_order(ascending(s)),
        ascending(s).to_multiset() == s.to_multiset(),
        ascending(s).len() == s.len(),
        forall|v: Scalar| #[trigger] ascending(s).contains(v) <==> s.contains(v),
{
    let leq = |a: Scalar, b: Scalar| a.total_rank() <= b.total_rank();
    assert(vstd::relations::total_ordering(leq)) by {
        assert forall|a: Scalar, b: Scalar|
            #[trigger] leq(a, b) && #[trigger] leq(b, a) implies a == b by {
            crate::scalar::total_rank_is_injective(a, b);
        }
    }
    s.lemma_sort_by_ensures(leq);
    let t = ascending(s);
    assert forall|i: int, j: int| 0 <= i <= j < t.len() implies #[trigger] t[i].total_rank()
        <= #[trigger] t[j].total_rank() by {
        if i < j {
            assert(leq(t[i], t[j]));
        }
    }
    to_multiset_len(t);
    to_multiset_len(s);
    assert forall|v: Scalar| #[trigger] t.contains(v) <==> s.contains(v) by {
        to_multiset_contains(t, v);
        to_multiset_contains(s, v);
    }
}

/// How many of the values come before `v` in the total order.
pub open spec fn count_before(s: Seq<Scalar>, v: Scalar) -> nat {
    s.filter(|x: Scalar| x.total_rank() < v.total_rank()).len()
}

/// How many of the values come after `v` in the total order.
pub open spec fn count_after(s: Seq<Scalar>, v: Scalar) -> nat {
    s.filter(|x: Scalar| x.total_rank() > v.total_rank()).len()
}

proof fn lemma_filter_counts(s: Seq<Scalar>, pred: spec_fn(Scalar) -> bool)
    ensures
        s.filter(pred).len() == s.to_multiset().filter(pred).len(),
    decreases s.len(),
{
    broadcast use vstd::multiset::group_multiset_axioms;

    reveal(Seq::filter);
    if s.len() == 0 {
        to_multiset_len(s);
        assert(s.to_multiset().filter(pred) =~= vstd::multiset::Multiset::<Scalar>::empty());
    } else {
        let head = s.drop_last();
        let v = s.last();
        lemma_filter_counts(head, pred);
        assert(head.push(v) =~= s);
        to_multiset_build(head, v);
        let whole = s.to_multiset().filter(pred);
        let part = head.to_multiset().filter(pred);
        if pred(v) {
            assert(whole =~= part.insert(v));
        } else {
            assert(whole =~= part);
        }
    }
}

proof fn lemma_filter_nothing(s: Seq<Scalar>, pred: spec_fn(Scalar) -> bool)
    requires
        forall|i: int| 0 <= i < s.len() ==> !pred(#[trigger] s[i]),
    ensures
        s.filter(pred).len() == 0,
    decreases s.len(),
{
    reveal(Seq::filter);
    if s.len() > 0 {
        assert(!pred(s[s.len() - 1]));
        assert forall|i: int| 0 <= i < s.drop_last().len() implies !pred(
            #[trigger] s.drop_last()[i],
        ) by {
            assert(!pred(s[i]));
        }
        lemma_filter_nothing(s.drop_last(), pred);
    }
}

proof fn lemma_filter_part(
    s: Seq<Scalar>,
    pred: spec_fn(Scalar) -> bool,
    from: int,
    to: int,
)
    requires
        0 <= from <= to <= s.len(),
        forall|i: int| 0 <= i < s.len() && pred(#[trigger] s[i]) ==> from <= i < to,
    ensures
        s.filter(pred).len() <= to - from,
{
    let head = s.take(from);
    let middle = s.subrange(from, to);
    let rest = s.skip(to);
    assert(s =~= head + (middle + rest));
    Seq::filter_distributes_over_add(head, middle + rest, pred);
    Seq::filter_distributes_over_add(middle, rest, pred);
    assert forall|i: int| 0 <= i < head.len() implies !pred(#[trigger] head[i]) by {
        assert(head[i] == s[i]);
    }
    assert forall|i: int| 0 <= i < rest.len() implies !pred(#[trigger] rest[i]) by {
        assert(rest[i] == s[to + i]);
    }
    lemma_filter_nothing(head, pred);
    lemma_filter_nothing(rest, pred);
    middle.lemma_filter_len(pred);
}

/// The value in place `k` of the ascending values is one of the values, at most `k` of
/// them come before it, and at most as many come after it as places do.
pub proof fn places_count_the_values(s: Seq<Scalar>, k: int)
    requires
        0 <= k < s.len(),
    ensures
        s.contains(ascending(s)[k]),
        count_before(s, ascending(s)[k]) <= k,
        count_after(s, ascending(s)[k]) <= s.len() - 1 - k,
{
    sorting_only_reorders(s);
    let t = ascending(s);
    let v = t[k];
    assert(t.contains(v));
    let less = |x: Scalar| x.total_rank() < v.total_rank();
    let more = |x: Scalar| x.total_rank() > v.total_rank();
    lemma_filter_counts(s, less);
    lemma_filter_counts(t, less);
    lemma_filter_counts(s, more);
    lemma_filter_counts(t, more);
    assert forall|i: int| 0 <= i < t.len() && less(#[trigger] t[i]) implies 0 <= i < k by {
        if i >= k {
            assert(t[k].total_rank() <= t[i].total_rank());
        }
    }
    assert forall|i: int| 0 <= i < t.len() && more(#[trigger] t[i]) implies k + 1 <= i
        < t.len() by {
        if i <= k {
            assert(t[i].total_rank() <= t[k].total_rank());
        }
    }
    lemma_filter_part(t, less, 0, k);
    lemma_filter_part(t, more, k + 1, t.len() as int);
}

/// The values in ascending total order.
pub fn sort_scalars(values: &[Scalar]) -> (result: Vec<Scalar>)
    ensures
        result@ == ascending(values@),
        in_order(result@),
        result@.to_multiset() == values@.to_multiset(),
        result@.len() == values@.len(),
        forall|v: Scalar| #[trigger] result@.contains(v) <==> values@.contains(v),
{
    let result = sort_range(values, 0, values.len());
    proof {
        assert(values@.subrange(0, values@.len() as int) == values@);
        lemma_ascending(values@, result@);
        to_multiset_len(result@);
        to_multiset_len(values@);
        assert forall|v: Scalar| #[trigger] result@.contains(v) <==> values@.contains(v) by {
            to_multiset_contains(result@, v);
            to_multiset_contains(values@, v);
        }
    }
    result
}

/// The different values among `values`, in ascending total order.
pub fn unique_sorted(values: &[Scalar]) -> (result: Vec<Scalar>)
    ensures
        strictly_in_order(result@),
        forall|v: Scalar| #[trigger] result@.contains(v) <==> values@.contains(v),
        result@.len() <= values@.len(),
        values@.len() > 0 ==> result@.len() > 0,
{
    let sorted = sort_scalars(values);
    let mut result: Vec<Scalar> = Vec::new();
    let mut i: usize = 0;
    while i < sorted.len()
        invariant
            i <= sorted@.len(),
            in_order(sorted@),
            strictly_in_order(result@),
            result@.len() <= i,
            i > 0 ==> result@.len() > 0 && result@.last() == sorted@[i - 1],
            forall|k: int| 0 <= k < i ==> result@.contains(#[trigger] sorted@[k]),
            forall|k: int| 0 <= k < result@.len() ==> sorted@.contains(#[trigger] result@[k]),
        decreases sorted@.len() - i,
    {
        let v = sorted[i];
        let fresh: bool = i == 0 || sorted[i - 1].bits != v.bits;
        if fresh {
            let ghost before = result@;
            proof {
                if i > 0 {
                    crate::scalar::total_rank_is_injective(sorted@[i - 1], v);
                }
            }
            result.push(v);
            proof {
                assert(sorted@.contains(v));
                assert(result@[before.len() as int] == v);
                assert forall|k: int| 0 <= k < i + 1 implies result@.contains(
                    #[trigger] sorted@[k],
                ) by {
                    if k < i {
                        let m = choose|m: int| 0 <= m < before.len() && before[m] == sorted@[k];
                        assert(result@[m] == sorted@[k]);
                    }
                }
            }
        } else {
            proof {
                assert(v == sorted@[i - 1]);
                assert(result@.contains(result@.last()));
            }
        }
        i += 1;
    }
    proof {
        assert forall|v: Scalar| #[trigger] result@.contains(v) <==> values@.contains(v) by {
            if result@.contains(v) {
                let k = choose|k: int| 0 <= k < result@.len() && result@[k] == v;
                assert(sorted@.contains(result@[k]));
            }
            if values@.contains(v) {
                assert(sorted@.contains(v));
                let k = choose|k: int| 0 <= k < sorted@.len() && sorted@[k] == v;
                assert(result@.contains(sorted@[k]));
            }
        }
    }
    result
}

/// Where `value` stands in an axis that is in strict order, if it does.
pub fn find_in_axis(axis: &[Scalar], value: Scalar) -> (result: Option<usize>)
    requires
        strictly_in_order(axis@),
    ensures
        result matches Some(i) ==> i < axis@.len() && axis@[i as int] == value,
        result is None ==> !axis@.contains(value),
{
    let mut low: usize = 0;
    let mut high: usize = axis.len();
    while low < high
        invariant
            low <= high <= axis@.len(),
            strictly_in_order(axis@),
            forall|k: int| 0 <= k < low ==> (#[trigger] axis@[k]).total_rank() < value.total_rank(),
            forall|k: int|
                high <= k < axis@.len() ==> (#[trigger] axis@[k]).total_rank() > value.total_rank(),
        decreases high - low,
    {
        let middle: usize = low + (high - low) / 2;
        let here = axis[middle];
        if here.precedes(value) {
            low = middle + 1;
        } else if value.precedes(here) {
            high = middle;
        } else {
            proof {
                crate::scalar::total_rank_is_injective(here, value);
            }
            return Some(middle);
        }
    }
    None
}

} // verus!

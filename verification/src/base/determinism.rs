//! Reproducible initialisation of model variables.
//!
//! Variables are walked in the order of their names, and the name and shape of
//! each decide how it is filled.

use super::error::{number_error, CoreError, PieceView};
use crate::scalar::{Scalar, ONE_BITS};
use crate::text::{
    chars_of, concat2, concat3, copy_of, hex_digits, hexadecimal, same_text, text_of,
};
use vstd::prelude::*;
use vstd::string::StringExecFns;

verus! {

/// A named variable and its dimensions.
#[derive(Debug)]
pub struct VarShape {
    pub name: String,
    pub dims: Vec<usize>,
}

/// What a variable is for.
#[derive(Clone, Copy, Debug, PartialEq, Eq, Structural)]
pub enum Role {
    /// `*.weight` with two or more dimensions: weight of a real linear layer.
    LinearWeight { fan_in: usize },
    /// `*.weight_re` or `*.weight_im` with two or more dimensions: weight of a
    /// complex linear layer.
    ComplexLinearWeight { fan_in: usize },
    /// `*.bias` beside a linear weight, or `*.bias_re` and `*.bias_im` beside
    /// their complex one.
    LinearBias { fan_in: usize },
    /// `*.weight` with fewer dimensions: scale of a normalisation layer.
    NormGamma,
    /// `*.bias` beside such a scale: shift of a normalisation layer.
    NormBeta,
    /// `*.bias` without a weight beside it: learnable bias of a ModReLU.
    ModReLUBias,
    /// Anything else; filled with zeros.
    Unknown,
}

/// The index of the last dot, or -1 where there is none.
pub open spec fn last_dot(s: Seq<char>) -> int
    decreases s.len(),
{
    if s.len() == 0 {
        -1
    } else if s.last() == '.' {
        s.len() - 1
    } else {
        last_dot(s.drop_last())
    }
}

/// What stands before the last dot; nothing where there is none.
pub open spec fn before_last_dot(s: Seq<char>) -> Seq<char> {
    if last_dot(s) < 0 {
        Seq::<char>::empty()
    } else {
        s.take(last_dot(s))
    }
}

/// What stands behind the last dot; all of it where there is none.
pub open spec fn after_last_dot(s: Seq<char>) -> Seq<char> {
    if last_dot(s) < 0 {
        s
    } else {
        s.skip(last_dot(s) + 1)
    }
}

proof fn lemma_last_dot(s: Seq<char>, k: int)
    requires
        0 <= k <= s.len(),
        forall|i: int| k <= i < s.len() ==> #[trigger] s[i] != '.',
        k > 0 ==> s[k - 1] == '.',
    ensures
        last_dot(s) == k - 1,
    decreases s.len(),
{
    if k < s.len() {
        assert(s[s.len() - 1] != '.');
        lemma_last_dot(s.drop_last(), k);
    }
}

/// Splits `"a.b.c"` into `("a.b", "c")`; a name without a dot is all suffix.
pub fn split_last_dot(name: &str) -> (result: (String, String))
    ensures
        result.0@ == before_last_dot(name@),
        result.1@ == after_last_dot(name@),
{
    let chars = chars_of(name);
    let mut k: usize = chars.len();
    while k > 0 && chars[k - 1] != '.'
        invariant
            k <= chars@.len(),
            forall|i: int| k <= i < chars@.len() ==> #[trigger] chars@[i] != '.',
        decreases k,
    {
        k -= 1;
    }
    proof {
        lemma_last_dot(name@, k as int);
        assert(chars@.subrange(0, chars@.len() as int) == chars@);
        assert(chars@.subrange(k as int, chars@.len() as int) == chars@.skip(k as int));
    }
    if k == 0 {
        (String::new(), text_of(&chars, 0, chars.len()))
    } else {
        proof {
            assert(chars@.subrange(0, k - 1) == chars@.take(k - 1));
        }
        (text_of(&chars, 0, k - 1), text_of(&chars, k, chars.len()))
    }
}

/// The dimensions of the variable of that name; of the last one where several
/// have it.
pub open spec fn dims_named(shapes: Seq<VarShape>, name: Seq<char>) -> Option<Seq<usize>>
    decreases shapes.len(),
{
    if shapes.len() == 0 {
        None
    } else if shapes.last().name@ == name {
        Some(shapes.last().dims@)
    } else {
        dims_named(shapes.drop_last(), name)
    }
}

/// The last dimension, or one for a variable without dimensions.
pub open spec fn last_dim(dims: Seq<usize>) -> usize {
    if dims.len() > 0 {
        dims.last()
    } else {
        1
    }
}

/// What the variable is for, from the suffix of its name, its dimensions, and
/// the weight that stands beside it.
pub open spec fn role_of(name: Seq<char>, dims: Seq<usize>, shapes: Seq<VarShape>) -> Role {
    let prefix = before_last_dot(name);
    let suffix = after_last_dot(name);
    if suffix == "weight"@ {
        if dims.len() >= 2 {
            Role::LinearWeight { fan_in: last_dim(dims) }
        } else {
            Role::NormGamma
        }
    } else if suffix == "weight_re"@ || suffix == "weight_im"@ {
        if dims.len() >= 2 {
            Role::ComplexLinearWeight { fan_in: last_dim(dims) }
        } else {
            Role::Unknown
        }
    } else if suffix == "bias"@ {
        match dims_named(shapes, prefix + ".weight"@) {
            Some(weight) => if weight.len() >= 2 {
                Role::LinearBias { fan_in: last_dim(weight) }
            } else {
                Role::NormBeta
            },
            None => Role::ModReLUBias,
        }
    } else if suffix == "bias_re"@ {
        complex_bias_role(dims_named(shapes, prefix + ".weight_re"@))
    } else if suffix == "bias_im"@ {
        complex_bias_role(dims_named(shapes, prefix + ".weight_im"@))
    } else {
        Role::Unknown
    }
}

/// The role of a complex bias whose weight has the given dimensions.
pub open spec fn complex_bias_role(weight: Option<Seq<usize>>) -> Role {
    match weight {
        Some(dims) => if dims.len() >= 2 {
            Role::LinearBias { fan_in: last_dim(dims) }
        } else {
            Role::Unknown
        },
        None => Role::Unknown,
    }
}

fn find_named<'a>(shapes: &'a [VarShape], name: &str) -> (result: Option<&'a Vec<usize>>)
    ensures
        match result {
            Some(dims) => dims_named(shapes@, name@) == Some(dims@),
            None => dims_named(shapes@, name@) is None,
        },
{
    let mut k: usize = shapes.len();
    proof {
        assert(shapes@.take(shapes@.len() as int) == shapes@);
    }
    while k > 0
        invariant
            k <= shapes@.len(),
            dims_named(shapes@, name@) == dims_named(shapes@.take(k as int), name@),
        decreases k,
    {
        proof {
            assert(shapes@.take(k as int).drop_last() == shapes@.take(k - 1));
            assert(shapes@.take(k as int).last() == shapes@[k - 1]);
        }
        if same_text(shapes[k - 1].name.as_str(), name) {
            return Some(&shapes[k - 1].dims);
        }
        k -= 1;
    }
    None
}

fn exec_last_dim(dims: &Vec<usize>) -> (result: usize)
    ensures
        result == last_dim(dims@),
{
    if dims.len() > 0 {
        dims[dims.len() - 1]
    } else {
        1
    }
}

fn classify_complex_bias(shapes: &[VarShape], partner: &str) -> (result: Role)
    ensures
        result == complex_bias_role(dims_named(shapes@, partner@)),
{
    match find_named(shapes, partner) {
        Some(weight) => if weight.len() >= 2 {
            Role::LinearBias { fan_in: exec_last_dim(weight) }
        } else {
            Role::Unknown
        },
        None => Role::Unknown,
    }
}

/// What a variable is for.
pub fn classify(name: &str, dims: &Vec<usize>, shapes: &[VarShape]) -> (result: Role)
    ensures
        result == role_of(name@, dims@, shapes@),
{
    proof {
        reveal_strlit("weight");
        reveal_strlit("weight_re");
        reveal_strlit("weight_im");
        reveal_strlit("bias");
        reveal_strlit("bias_re");
        reveal_strlit("bias_im");
    }
    let (prefix, suffix) = split_last_dot(name);
    let rank: usize = dims.len();
    if same_text(suffix.as_str(), "weight") {
        if rank >= 2 {
            Role::LinearWeight { fan_in: exec_last_dim(dims) }
        } else {
            Role::NormGamma
        }
    } else if same_text(suffix.as_str(), "weight_re") || same_text(suffix.as_str(), "weight_im") {
        if rank >= 2 {
            Role::ComplexLinearWeight { fan_in: exec_last_dim(dims) }
        } else {
            Role::Unknown
        }
    } else if same_text(suffix.as_str(), "bias") {
        let sibling = concat2(prefix.as_str(), ".weight");
        match find_named(shapes, sibling.as_str()) {
            Some(weight) => if weight.len() >= 2 {
                Role::LinearBias { fan_in: exec_last_dim(weight) }
            } else {
                Role::NormBeta
            },
            None => Role::ModReLUBias,
        }
    } else if same_text(suffix.as_str(), "bias_re") {
        let partner = concat2(prefix.as_str(), ".weight_re");
        classify_complex_bias(shapes, partner.as_str())
    } else if same_text(suffix.as_str(), "bias_im") {
        let partner = concat2(prefix.as_str(), ".weight_im");
        classify_complex_bias(shapes, partner.as_str())
    } else {
        Role::Unknown
    }
}

/// `a` comes before `b` when compared character by character.
pub open spec fn text_before(a: Seq<char>, b: Seq<char>) -> bool
    decreases a.len(),
{
    if b.len() == 0 {
        false
    } else if a.len() == 0 {
        true
    } else if a[0] == b[0] {
        text_before(a.drop_first(), b.drop_first())
    } else {
        a[0] < b[0]
    }
}

proof fn lemma_text_before_transitive(a: Seq<char>, b: Seq<char>, c: Seq<char>)
    requires
        text_before(a, b),
        !text_before(c, b),
    ensures
        text_before(a, c),
    decreases a.len(),
{
    if b.len() > 0 && a.len() > 0 && c.len() > 0 {
        if a[0] == b[0] && b[0] == c[0] {
            lemma_text_before_transitive(a.drop_first(), b.drop_first(), c.drop_first());
        }
    }
}

proof fn lemma_text_before_at(a: Seq<char>, b: Seq<char>, k: int)
    requires
        0 <= k <= a.len(),
        k <= b.len(),
        forall|i: int| 0 <= i < k ==> #[trigger] a[i] == b[i],
        k == a.len() || k == b.len() || a[k] != b[k],
    ensures
        text_before(a, b) == (k < b.len() && (k == a.len() || a[k] < b[k])),
    decreases a.len(),
{
    if k > 0 {
        assert(a[0] == b[0]);
        assert forall|i: int| 0 <= i < k - 1 implies #[trigger] a.drop_first()[i]
            == b.drop_first()[i] by {
            assert(a[i + 1] == b[i + 1]);
        }
        lemma_text_before_at(a.drop_first(), b.drop_first(), k - 1);
    }
}

fn precedes(a: &str, b: &str) -> (result: bool)
    ensures
        result == text_before(a@, b@),
{
    let left = chars_of(a);
    let right = chars_of(b);
    let mut k: usize = 0;
    while k < left.len() && k < right.len() && left[k] == right[k]
        invariant
            k <= left@.len(),
            k <= right@.len(),
            forall|i: int| 0 <= i < k ==> #[trigger] left@[i] == right@[i],
        decreases left@.len() - k,
    {
        k += 1;
    }
    proof {
        lemma_text_before_at(left@, right@, k as int);
    }
    k < right.len() && (k == left.len() || left[k] < right[k])
}

/// No variable has a name that comes before that of an earlier one.
pub open spec fn names_in_order(vars: Seq<VarShape>) -> bool {
    forall|i: int, j: int|
        0 <= i < j < vars.len() ==> !text_before(
            (#[trigger] vars[j]).name@,
            (#[trigger] vars[i]).name@,
        )
}

/// The variables in the order of their names.
pub fn sort_by_name(vars: Vec<VarShape>) -> (result: Vec<VarShape>)
    ensures
        names_in_order(result@),
        result@.to_multiset() == vars@.to_multiset(),
{
    let mut rest = vars;
    let mut sorted: Vec<VarShape> = Vec::new();
    proof {
        assert(rest@ + sorted@ == vars@);
    }
    while rest.len() > 0
        invariant
            names_in_order(sorted@),
            (rest@ + sorted@).to_multiset() == vars@.to_multiset(),
        decreases rest@.len(),
    {
        let ghost rest_before = rest@;
        let ghost sorted_before = sorted@;
        let next = rest.pop();
        match next {
            Some(var) => {
                let mut p: usize = 0;
                while p < sorted.len() && precedes(sorted[p].name.as_str(), var.name.as_str())
                    invariant
                        p <= sorted@.len(),
                        forall|i: int|
                            0 <= i < p ==> text_before(
                                (#[trigger] sorted@[i]).name@,
                                var.name@,
                            ),
                    decreases sorted@.len() - p,
                {
                    p += 1;
                }
                sorted.insert(p, var);
                proof {
                    assert(rest_before == rest@.push(var));
                    sorted_before.insert_ensures(p as int, var);
                    lemma_insert_keeps_order(sorted_before, p as int, var);
                    lemma_move_keeps_multiset(rest@, sorted_before, p as int, var);
                }
            },
            None => {},
        }
    }
    proof {
        assert(rest@ + sorted@ == sorted@);
    }
    sorted
}

proof fn lemma_insert_keeps_order(vars: Seq<VarShape>, p: int, var: VarShape)
    requires
        names_in_order(vars),
        0 <= p <= vars.len(),
        forall|i: int| 0 <= i < p ==> text_before((#[trigger] vars[i]).name@, var.name@),
        p < vars.len() ==> !text_before(vars[p].name@, var.name@),
    ensures
        names_in_order(vars.insert(p, var)),
{
    let longer = vars.insert(p, var);
    vars.insert_ensures(p, var);
    assert forall|i: int, j: int| 0 <= i < j < longer.len() implies !text_before(
        (#[trigger] longer[j]).name@,
        (#[trigger] longer[i]).name@,
    ) by {
        if j == p {
            // The inserted name is after every one before it.
            lemma_before_is_asymmetric(vars[i].name@, var.name@);
        } else if i == p {
            let later = vars[j - 1].name@;
            if j - 1 > p {
                if text_before(later, var.name@) {
                    assert(!text_before(vars[j - 1].name@, vars[p].name@));
                    lemma_text_before_transitive(later, var.name@, vars[p].name@);
                }
            }
        } else {
            let a = if i < p {
                i
            } else {
                i - 1
            };
            let b = if j < p {
                j
            } else {
                j - 1
            };
            assert(longer[i] == vars[a]);
            assert(longer[j] == vars[b]);
        }
    }
}

proof fn lemma_before_is_asymmetric(a: Seq<char>, b: Seq<char>)
    requires
        text_before(a, b),
    ensures
        !text_before(b, a),
    decreases a.len(),
{
    if a.len() > 0 && b.len() > 0 && a[0] == b[0] {
        lemma_before_is_asymmetric(a.drop_first(), b.drop_first());
    }
}

proof fn lemma_move_keeps_multiset(
    rest: Seq<VarShape>,
    sorted: Seq<VarShape>,
    p: int,
    var: VarShape,
)
    requires
        0 <= p <= sorted.len(),
    ensures
        (rest + sorted.insert(p, var)).to_multiset() == (rest.push(var) + sorted).to_multiset(),
{
    broadcast use vstd::multiset::group_multiset_axioms;

    vstd::seq_lib::lemma_multiset_commutative(rest, sorted.insert(p, var));
    vstd::seq_lib::lemma_multiset_commutative(rest.push(var), sorted);
    vstd::seq_lib::to_multiset_insert(sorted, p, var);
    vstd::seq_lib::to_multiset_build(rest, var);
    assert((rest + sorted.insert(p, var)).to_multiset() =~= (rest.push(var)
        + sorted).to_multiset());
}

proof fn lemma_names_are_told_apart(a: Seq<char>, b: Seq<char>)
    requires
        !text_before(a, b),
        !text_before(b, a),
    ensures
        a == b,
    decreases a.len(),
{
    if a.len() > 0 && b.len() > 0 {
        lemma_names_are_told_apart(a.drop_first(), b.drop_first());
        assert(a == seq![a[0]] + a.drop_first());
        assert(b == seq![b[0]] + b.drop_first());
    }
}

/// No two variables share a name.
pub open spec fn names_differ(vars: Seq<VarShape>) -> bool {
    forall|i: int, j: int|
        0 <= i < vars.len() && 0 <= j < vars.len() && i != j ==> (#[trigger] vars[i]).name@
            != (#[trigger] vars[j]).name@
}

/// The names and dimensions of variables.
pub open spec fn shape_views(vars: Seq<VarShape>) -> Seq<(Seq<char>, Seq<usize>)> {
    vars.map_values(|var: VarShape| (var.name@, var.dims@))
}

/// No name comes before an earlier one, and none is the same as another.
spec fn strictly_named(shapes: Seq<(Seq<char>, Seq<usize>)>) -> bool {
    forall|i: int, j: int|
        0 <= i < j < shapes.len() ==> !text_before((#[trigger] shapes[j]).0, (
        #[trigger] shapes[i]).0) && shapes[i].0 != shapes[j].0
}

proof fn lemma_walk_order(
    first: Seq<(Seq<char>, Seq<usize>)>,
    second: Seq<(Seq<char>, Seq<usize>)>,
)
    requires
        strictly_named(first),
        strictly_named(second),
        first.to_multiset() == second.to_multiset(),
    ensures
        first == second,
    decreases first.len(),
{
    vstd::seq_lib::to_multiset_len(first);
    vstd::seq_lib::to_multiset_len(second);
    if first.len() > 0 {
        vstd::seq_lib::to_multiset_contains(first, first[0]);
        vstd::seq_lib::to_multiset_contains(second, first[0]);
        vstd::seq_lib::to_multiset_contains(first, second[0]);
        vstd::seq_lib::to_multiset_contains(second, second[0]);
        assert(first.contains(first[0]));
        assert(second.contains(second[0]));
        let i = choose|i: int| 0 <= i < second.len() && second[i] == first[0];
        let j = choose|j: int| 0 <= j < first.len() && first[j] == second[0];
        if i > 0 && j > 0 {
            assert(!text_before(second[i].0, second[0].0));
            assert(!text_before(first[j].0, first[0].0));
            lemma_names_are_told_apart(first[0].0, second[0].0);
            assert(first[0].0 != first[j].0);
        }
        assert(first[0] == second[0]);
        vstd::seq_lib::to_multiset_remove(first, 0);
        vstd::seq_lib::to_multiset_remove(second, 0);
        let a = first.remove(0);
        let b = second.remove(0);
        assert forall|p: int, q: int| 0 <= p < q < a.len() implies !text_before(
            (#[trigger] a[q]).0,
            (#[trigger] a[p]).0,
        ) && a[p].0 != a[q].0 by {
            assert(a[p] == first[p + 1] && a[q] == first[q + 1]);
        }
        assert forall|p: int, q: int| 0 <= p < q < b.len() implies !text_before(
            (#[trigger] b[q]).0,
            (#[trigger] b[p]).0,
        ) && b[p].0 != b[q].0 by {
            assert(b[p] == second[p + 1] && b[q] == second[q + 1]);
        }
        lemma_walk_order(a, b);
        assert(first == seq![first[0]] + a);
        assert(second == seq![second[0]] + b);
    } else {
        assert(first == second);
    }
}

/// The walk order of variables with different names depends on their names and
/// dimensions alone, not on the order in which they were listed.
pub proof fn walk_order_is_unique(first: Seq<VarShape>, second: Seq<VarShape>)
    requires
        names_in_order(first),
        names_in_order(second),
        names_differ(first),
        names_differ(second),
        shape_views(first).to_multiset() == shape_views(second).to_multiset(),
    ensures
        shape_views(first) == shape_views(second),
{
    assert(strictly_named(shape_views(first)));
    assert(strictly_named(shape_views(second)));
    lemma_walk_order(shape_views(first), shape_views(second));
}

/// Variables that are only listed in another order have the same names and dimensions.
proof fn lemma_views_of_reordered(first: Seq<VarShape>, second: Seq<VarShape>)
    requires
        first.to_multiset() == second.to_multiset(),
    ensures
        shape_views(first).to_multiset() == shape_views(second).to_multiset(),
    decreases first.len(),
{
    vstd::seq_lib::to_multiset_len(first);
    vstd::seq_lib::to_multiset_len(second);
    if first.len() > 0 {
        let var = first[0];
        vstd::seq_lib::to_multiset_contains(first, var);
        vstd::seq_lib::to_multiset_contains(second, var);
        assert(first.contains(var));
        let k = choose|k: int| 0 <= k < second.len() && second[k] == var;
        vstd::seq_lib::to_multiset_remove(first, 0);
        vstd::seq_lib::to_multiset_remove(second, k);
        lemma_views_of_reordered(first.remove(0), second.remove(k));
        assert(shape_views(first.remove(0)) =~= shape_views(first).remove(0));
        assert(shape_views(second.remove(k)) =~= shape_views(second).remove(k));
        vstd::seq_lib::to_multiset_remove(shape_views(first), 0);
        vstd::seq_lib::to_multiset_remove(shape_views(second), k);
        let view = (var.name@, var.dims@);
        assert(shape_views(first)[0] == view && shape_views(second)[k] == view);
        vstd::seq_lib::to_multiset_contains(shape_views(first), view);
        vstd::seq_lib::to_multiset_contains(shape_views(second), view);
        broadcast use vstd::multiset::group_multiset_axioms;

        assert(shape_views(first).to_multiset() =~= shape_views(first).to_multiset().remove(
            view,
        ).insert(view));
        assert(shape_views(second).to_multiset() =~= shape_views(second).to_multiset().remove(
            view,
        ).insert(view));
    } else {
        assert(first =~= second);
    }
}

/// Names that differ still do so when they are listed in another order.
proof fn lemma_names_differ_reordered(
    first: Seq<(Seq<char>, Seq<usize>)>,
    second: Seq<(Seq<char>, Seq<usize>)>,
    i: int,
    j: int,
)
    requires
        first.to_multiset() == second.to_multiset(),
        forall|p: int, q: int|
            0 <= p < q < first.len() ==> (#[trigger] first[p]).0 != (#[trigger] first[q]).0,
        0 <= i < j < second.len(),
    ensures
        second[i].0 != second[j].0,
{
    if second[i].0 == second[j].0 {
        vstd::seq_lib::to_multiset_contains(second, second[i]);
        vstd::seq_lib::to_multiset_contains(second, second[j]);
        vstd::seq_lib::to_multiset_contains(first, second[i]);
        vstd::seq_lib::to_multiset_contains(first, second[j]);
        assert(second.contains(second[i]) && second.contains(second[j]));
        let p = choose|p: int| 0 <= p < first.len() && first[p] == second[i];
        let q = choose|q: int| 0 <= q < first.len() && first[q] == second[j];
        assert(p == q);
        assert(first.no_duplicates());
        first.lemma_multiset_has_no_duplicates();
        second.lemma_multiset_has_no_duplicates_conv();
        assert(second[i] == second[j]);
        assert(false);
    }
}

/// The number of elements of a variable with these dimensions.
pub open spec fn element_count(dims: Seq<usize>) -> nat
    decreases dims.len(),
{
    if dims.len() == 0 {
        1
    } else {
        element_count(dims.drop_last()) * (dims.last() as nat)
    }
}

/// The pattern of -0.1, the bias that a ModReLU starts with.
pub const MOD_RELU_BIAS_BITS: u64 = 0xbfb9_9999_9999_999a;

/// The values that a variable starts with.
#[derive(Clone, Copy, Debug, PartialEq, Eq, Structural)]
pub enum Fill {
    /// This value throughout.
    Constant(Scalar),
    /// Drawn evenly, at most one over the root of `fan_in` away from zero.
    Uniform { fan_in: usize },
    /// Drawn from a normal distribution whose variance is one over `fan_in`.
    Normal { fan_in: usize },
}

/// The number, or one in place of zero.
pub open spec fn at_least_one(n: usize) -> usize {
    if n == 0 {
        1
    } else {
        n
    }
}

/// The values that a role asks for.
pub open spec fn fill_rule(role: Role) -> Fill {
    match role {
        Role::LinearWeight { fan_in } => Fill::Uniform { fan_in: at_least_one(fan_in) },
        Role::LinearBias { fan_in } => Fill::Uniform { fan_in: at_least_one(fan_in) },
        Role::ComplexLinearWeight { fan_in } => Fill::Normal { fan_in: at_least_one(fan_in) },
        Role::NormGamma => Fill::Constant(Scalar { bits: ONE_BITS }),
        Role::NormBeta => Fill::Constant(Scalar { bits: 0 }),
        Role::ModReLUBias => Fill::Constant(Scalar { bits: MOD_RELU_BIAS_BITS }),
        Role::Unknown => Fill::Constant(Scalar { bits: 0 }),
    }
}

fn nonzero(n: usize) -> (result: usize)
    ensures
        result == at_least_one(n),
{
    if n == 0 {
        1
    } else {
        n
    }
}

/// The values that a role asks for.
pub fn fill_for(role: Role) -> (result: Fill)
    ensures
        result == fill_rule(role),
{
    match role {
        Role::LinearWeight { fan_in } => Fill::Uniform { fan_in: nonzero(fan_in) },
        Role::LinearBias { fan_in } => Fill::Uniform { fan_in: nonzero(fan_in) },
        Role::ComplexLinearWeight { fan_in } => Fill::Normal { fan_in: nonzero(fan_in) },
        Role::NormGamma => Fill::Constant(Scalar::one()),
        Role::NormBeta => Fill::Constant(Scalar::zero()),
        Role::ModReLUBias => Fill::Constant(Scalar::from_bits(MOD_RELU_BIAS_BITS)),
        Role::Unknown => Fill::Constant(Scalar::zero()),
    }
}

/// What the suffix of a variable's name and the weight beside it ask for: a weight with
/// fewer than two dimensions starts at one, any other within one over the root of its last
/// dimension; a bias without a weight beside it starts at -0.1, one beside a weight with
/// fewer than two dimensions at zero, any other within one over the root of that
/// weight's last dimension; a name with any other suffix starts at zero.
pub proof fn names_decide_the_values(name: Seq<char>, dims: Seq<usize>, shapes: Seq<VarShape>)
    ensures
        ({
            let fill = fill_rule(role_of(name, dims, shapes));
            let suffix = after_last_dot(name);
            let beside = dims_named(shapes, before_last_dot(name) + ".weight"@);
            &&& suffix == "weight"@ && dims.len() < 2 ==> fill == Fill::Constant(
                Scalar { bits: ONE_BITS },
            )
            &&& suffix == "weight"@ && dims.len() >= 2 ==> fill == (Fill::Uniform {
                fan_in: at_least_one(dims.last()),
            })
            &&& suffix == "bias"@ && beside is None ==> fill == Fill::Constant(
                Scalar { bits: MOD_RELU_BIAS_BITS },
            )
            &&& suffix == "bias"@ && beside is Some && beside->0.len() < 2 ==> fill
                == Fill::Constant(Scalar { bits: 0 })
            &&& suffix == "bias"@ && beside is Some && beside->0.len() >= 2 ==> fill == (
            Fill::Uniform { fan_in: at_least_one(beside->0.last()) })
            &&& suffix != "weight"@ && suffix != "weight_re"@ && suffix != "weight_im"@ && suffix
                != "bias"@ && suffix != "bias_re"@ && suffix != "bias_im"@ ==> fill
                == Fill::Constant(Scalar { bits: 0 })
        }),
{
    reveal_strlit("weight");
    reveal_strlit("weight_re");
    reveal_strlit("weight_im");
    reveal_strlit("bias");
    assert("weight"@.len() == 6 && "weight_re"@.len() == 9 && "weight_im"@.len() == 9
        && "bias"@.len() == 4);
}

/// How one variable is to be filled.
#[derive(Debug)]
pub struct InitStep {
    /// The variable.
    pub name: String,
    /// How many values it takes.
    pub elem_count: usize,
    /// What it is for.
    pub role: Role,
    /// The values that it starts with.
    pub fill: Fill,
}

/// The step that fills `var`.
pub open spec fn fills(step: InitStep, var: VarShape, shapes: Seq<VarShape>) -> bool {
    &&& step.name@ == var.name@
    &&& step.elem_count == element_count(var.dims@)
    &&& step.role == role_of(var.name@, var.dims@, shapes)
    &&& step.fill == fill_rule(step.role)
}

/// These are the variables in the order of their names, and a step for each of them
/// that has elements.
pub open spec fn is_plan_of(
    vars: Seq<VarShape>,
    sorted: Seq<VarShape>,
    steps: Seq<InitStep>,
) -> bool {
    &&& names_in_order(sorted)
    &&& sorted.to_multiset() == vars.to_multiset()
    &&& steps.len() == non_empty(sorted).len()
    &&& forall|i: int|
        0 <= i < steps.len() ==> fills(#[trigger] steps[i], non_empty(sorted)[i], sorted)
}

/// The variables that have elements.
pub open spec fn non_empty(vars: Seq<VarShape>) -> Seq<VarShape> {
    vars.filter(|v: VarShape| element_count(v.dims@) > 0)
}

proof fn lemma_element_count_prefix(dims: Seq<usize>, k: int)
    requires
        0 <= k <= dims.len(),
    ensures
        element_count(dims) > 0 ==> element_count(dims.take(k)) <= element_count(dims)
            && element_count(dims.take(k)) > 0,
        element_count(dims.take(k)) == 0 ==> element_count(dims) == 0,
    decreases dims.len(),
{
    if k < dims.len() {
        lemma_element_count_prefix(dims.drop_last(), k);
        assert(dims.drop_last().take(k) == dims.take(k));
        let a = element_count(dims.drop_last());
        let b = dims.last() as nat;
        assert(a * b > 0 ==> a > 0 && a <= a * b) by (nonlinear_arith);
        assert(a == 0 ==> a * b == 0) by (nonlinear_arith);
    } else {
        assert(dims.take(k) == dims);
    }
}

/// The number of elements of a variable with these dimensions.
pub fn count_elements(dims: &Vec<usize>) -> (result: usize)
    requires
        element_count(dims@) <= usize::MAX,
    ensures
        result == element_count(dims@),
{
    let mut zero: bool = false;
    let mut k: usize = 0;
    while k < dims.len()
        invariant
            k <= dims@.len(),
            !zero ==> (forall|i: int| 0 <= i < k ==> #[trigger] dims@[i] > 0),
            zero ==> (exists|i: int| 0 <= i < k && #[trigger] dims@[i] == 0),
        decreases dims@.len() - k,
    {
        if dims[k] == 0 {
            zero = true;
            proof {
                assert(dims@[k as int] == 0);
            }
        }
        k += 1;
    }
    if zero {
        proof {
            let i = choose|i: int| 0 <= i < dims@.len() && #[trigger] dims@[i] == 0;
            assert(dims@.take(i + 1).drop_last() == dims@.take(i));
            assert(dims@.take(i + 1).last() == 0);
            assert(element_count(dims@.take(i + 1)) == 0) by (nonlinear_arith)
                requires
                    element_count(dims@.take(i + 1)) == element_count(dims@.take(i)) * 0,
            ;
            lemma_element_count_prefix(dims@, i + 1);
        }
        return 0;
    }
    let mut total: usize = 1;
    let mut i: usize = 0;
    proof {
        lemma_all_positive_count(dims@);
    }
    while i < dims.len()
        invariant
            i <= dims@.len(),
            element_count(dims@) <= usize::MAX,
            element_count(dims@) > 0,
            total == element_count(dims@.take(i as int)),
        decreases dims@.len() - i,
    {
        proof {
            assert(dims@.take(i + 1).drop_last() == dims@.take(i as int));
            assert(dims@.take(i + 1).last() == dims@[i as int]);
            lemma_element_count_prefix(dims@, i + 1);
        }
        total = total * dims[i];
        i += 1;
    }
    proof {
        assert(dims@.take(dims@.len() as int) == dims@);
    }
    total
}

proof fn lemma_all_positive_count(dims: Seq<usize>)
    requires
        forall|i: int| 0 <= i < dims.len() ==> #[trigger] dims[i] > 0,
    ensures
        element_count(dims) > 0,
    decreases dims.len(),
{
    if dims.len() > 0 {
        lemma_all_positive_count(dims.drop_last());
        let a = element_count(dims.drop_last());
        let b = dims.last() as nat;
        assert(a > 0 && b > 0 ==> a * b > 0) by (nonlinear_arith);
    }
}

/// The steps that fill all variables, in the order of their names; variables
/// without elements are passed over.
pub fn reinit_plan(vars: Vec<VarShape>) -> (result: (Vec<VarShape>, Vec<InitStep>))
    requires
        forall|i: int| 0 <= i < vars@.len() ==> element_count((#[trigger] vars@[i]).dims@)
            <= usize::MAX,
    ensures
        is_plan_of(vars@, result.0@, result.1@),
{
    let ghost original = vars@;
    let sorted = sort_by_name(vars);
    proof {
        assert forall|i: int| 0 <= i < sorted@.len() implies element_count(
            (#[trigger] sorted@[i]).dims@,
        ) <= usize::MAX by {
            vstd::seq_lib::to_multiset_contains(sorted@, sorted@[i]);
            vstd::seq_lib::to_multiset_contains(original, sorted@[i]);
            assert(sorted@.contains(sorted@[i]));
            assert(original.contains(sorted@[i]));
            let k = choose|k: int| 0 <= k < original.len() && original[k] == sorted@[i];
            assert(element_count(original[k].dims@) <= usize::MAX);
        }
    }
    let mut steps: Vec<InitStep> = Vec::new();
    let mut i: usize = 0;
    while i < sorted.len()
        invariant
            i <= sorted@.len(),
            forall|i: int| 0 <= i < sorted@.len() ==> element_count((#[trigger] sorted@[i]).dims@)
                <= usize::MAX,
            steps@.len() == non_empty(sorted@.take(i as int)).len(),
            forall|k: int|
                0 <= k < steps@.len() ==> fills(
                    #[trigger] steps@[k],
                    non_empty(sorted@.take(i as int))[k],
                    sorted@,
                ),
        decreases sorted@.len() - i,
    {
        let count: usize = count_elements(&sorted[i].dims);
        proof {
            reveal(Seq::filter);
            assert(sorted@.take(i + 1).drop_last() == sorted@.take(i as int));
            assert(sorted@.take(i + 1).last() == sorted@[i as int]);
        }
        if count != 0 {
            let role = classify(sorted[i].name.as_str(), &sorted[i].dims, sorted.as_slice());
            let step = InitStep {
                name: copy_of(sorted[i].name.as_str()),
                elem_count: count,
                role,
                fill: fill_for(role),
            };
            steps.push(step);
        }
        i += 1;
    }
    proof {
        assert(sorted@.take(sorted@.len() as int) == sorted@);
    }
    (sorted, steps)
}

proof fn lemma_dims_named(first: Seq<VarShape>, second: Seq<VarShape>, name: Seq<char>)
    requires
        shape_views(first) == shape_views(second),
    ensures
        dims_named(first, name) == dims_named(second, name),
    decreases first.len(),
{
    assert(shape_views(first).len() == first.len() && shape_views(second).len() == second.len());
    if first.len() > 0 {
        assert(shape_views(first).last() == (first.last().name@, first.last().dims@));
        assert(shape_views(second).last() == (second.last().name@, second.last().dims@));
        assert(shape_views(first.drop_last()) =~= shape_views(first).drop_last());
        assert(shape_views(second.drop_last()) =~= shape_views(second).drop_last());
        lemma_dims_named(first.drop_last(), second.drop_last(), name);
    }
}

proof fn lemma_non_empty_views(vars: Seq<VarShape>)
    ensures
        shape_views(non_empty(vars)) == shape_views(vars).filter(
            |shape: (Seq<char>, Seq<usize>)| element_count(shape.1) > 0,
        ),
    decreases vars.len(),
{
    reveal(Seq::filter);
    if vars.len() > 0 {
        lemma_non_empty_views(vars.drop_last());
        assert(shape_views(vars.drop_last()) =~= shape_views(vars).drop_last());
        let before = non_empty(vars.drop_last());
        if element_count(vars.last().dims@) > 0 {
            assert(non_empty(vars) == before.push(vars.last()));
            assert(shape_views(before.push(vars.last())) =~= shape_views(before).push(
                (vars.last().name@, vars.last().dims@),
            ));
        }
    }
    assert(shape_views(non_empty(vars)) =~= shape_views(vars).filter(
        |shape: (Seq<char>, Seq<usize>)| element_count(shape.1) > 0,
    ));
}

/// Differently named variables have one plan, whatever order they are listed in: it
/// depends on their names and dimensions alone, and so do the values that are drawn by it
/// from one generator.
pub proof fn one_plan_for_one_model(
    first: Seq<VarShape>,
    first_sorted: Seq<VarShape>,
    first_steps: Seq<InitStep>,
    second: Seq<VarShape>,
    second_sorted: Seq<VarShape>,
    second_steps: Seq<InitStep>,
)
    requires
        names_differ(first),
        shape_views(first).to_multiset() == shape_views(second).to_multiset(),
        is_plan_of(first, first_sorted, first_steps),
        is_plan_of(second, second_sorted, second_steps),
    ensures
        shape_views(first_sorted) == shape_views(second_sorted),
        first_steps.len() == second_steps.len(),
        forall|i: int|
            0 <= i < first_steps.len() ==> {
                &&& (#[trigger] first_steps[i]).name@ == second_steps[i].name@
                &&& first_steps[i].elem_count == second_steps[i].elem_count
                &&& first_steps[i].role == second_steps[i].role
                &&& first_steps[i].fill == second_steps[i].fill
            },
{
    lemma_views_of_reordered(first_sorted, first);
    lemma_views_of_reordered(second_sorted, second);
    let listed = shape_views(first);
    assert forall|p: int, q: int| 0 <= p < q < listed.len() implies (#[trigger] listed[p]).0 != (
    #[trigger] listed[q]).0 by {
        assert(first[p].name@ != first[q].name@);
    }
    let a = shape_views(first_sorted);
    let b = shape_views(second_sorted);
    assert forall|p: int, q: int| 0 <= p < q < a.len() implies !text_before(
        (#[trigger] a[q]).0,
        (#[trigger] a[p]).0,
    ) && a[p].0 != a[q].0 by {
        lemma_names_differ_reordered(listed, a, p, q);
        assert(!text_before(first_sorted[q].name@, first_sorted[p].name@));
    }
    assert forall|p: int, q: int| 0 <= p < q < b.len() implies !text_before(
        (#[trigger] b[q]).0,
        (#[trigger] b[p]).0,
    ) && b[p].0 != b[q].0 by {
        lemma_names_differ_reordered(listed, b, p, q);
        assert(!text_before(second_sorted[q].name@, second_sorted[p].name@));
    }
    lemma_walk_order(a, b);
    lemma_non_empty_views(first_sorted);
    lemma_non_empty_views(second_sorted);
    let x = non_empty(first_sorted);
    let y = non_empty(second_sorted);
    assert(shape_views(x) == shape_views(y));
    assert(shape_views(x).len() == x.len() && shape_views(y).len() == y.len());
    assert forall|i: int| 0 <= i < first_steps.len() implies {
        &&& (#[trigger] first_steps[i]).name@ == second_steps[i].name@
        &&& first_steps[i].elem_count == second_steps[i].elem_count
        &&& first_steps[i].role == second_steps[i].role
        &&& first_steps[i].fill == second_steps[i].fill
    } by {
        assert(fills(first_steps[i], x[i], first_sorted));
        assert(fills(second_steps[i], y[i], second_sorted));
        assert(shape_views(x)[i] == (x[i].name@, x[i].dims@));
        assert(shape_views(y)[i] == (y[i].name@, y[i].dims@));
        let prefix = before_last_dot(x[i].name@);
        lemma_dims_named(first_sorted, second_sorted, prefix + ".weight"@);
        lemma_dims_named(first_sorted, second_sorted, prefix + ".weight_re"@);
        lemma_dims_named(first_sorted, second_sorted, prefix + ".weight_im"@);
    }
}

/// Whether gradients with this norm are to be scaled down to `max_norm`; an error
/// where the norm is not finite.
pub fn clip_decision(total_norm: Scalar, max_norm: Scalar) -> (result: Result<bool, CoreError>)
    ensures
        result is Ok <==> total_norm.finite(),
        result matches Ok(clip) ==> clip == max_norm.lt(total_norm),
        result matches Err(e) ==> e.tells(seq![
            PieceView::Text("non-finite gradient norm encountered: "@),
            PieceView::Number(total_norm),
        ]),
{
    if !total_norm.is_finite() {
        return Err(number_error(copy_of("non-finite gradient norm encountered: "), total_norm));
    }
    Ok(max_norm.less_than(total_norm))
}

/// The line that tells the hash of all variables.
pub fn hash_line(tag: &str, hash: u64) -> (result: String)
    ensures
        result@ == "[varmap hash] "@ + tag@ + " = 0x"@ + hex_digits(hash as nat, 16),
{
    let digits = hexadecimal(hash, 16);
    let mut line = concat3("[varmap hash] ", tag, " = 0x");
    line.append(digits.as_str());
    line
}

/// What the suffix of a complex variable's name and the weight beside it ask for: a weight
/// with two dimensions or more is drawn from a normal distribution by its last one; a
/// bias is drawn uniformly by the last dimension of the weight of the same part beside it,
/// where that has two dimensions or more. Everything else starts at zero.
pub proof fn complex_names_decide_the_values(
    name: Seq<char>,
    dims: Seq<usize>,
    shapes: Seq<VarShape>,
)
    ensures
        ({
            let fill = fill_rule(role_of(name, dims, shapes));
            let suffix = after_last_dot(name);
            let zero = Fill::Constant(Scalar { bits: 0 });
            let re = dims_named(shapes, before_last_dot(name) + ".weight_re"@);
            let im = dims_named(shapes, before_last_dot(name) + ".weight_im"@);
            &&& (suffix == "weight_re"@ || suffix == "weight_im"@) && dims.len() >= 2 ==> fill == (
            Fill::Normal { fan_in: at_least_one(dims.last()) })
            &&& (suffix == "weight_re"@ || suffix == "weight_im"@) && dims.len() < 2 ==> fill
                == zero
            &&& suffix == "bias_re"@ && re is Some && re->0.len() >= 2 ==> fill == (Fill::Uniform {
                fan_in: at_least_one(re->0.last()),
            })
            &&& suffix == "bias_re"@ && (re is None || re->0.len() < 2) ==> fill == zero
            &&& suffix == "bias_im"@ && im is Some && im->0.len() >= 2 ==> fill == (Fill::Uniform {
                fan_in: at_least_one(im->0.last()),
            })
            &&& suffix == "bias_im"@ && (im is None || im->0.len() < 2) ==> fill == zero
        }),
{
    reveal_strlit("weight");
    reveal_strlit("weight_re");
    reveal_strlit("weight_im");
    reveal_strlit("bias");
    reveal_strlit("bias_re");
    reveal_strlit("bias_im");
    assert("weight"@.len() == 6 && "weight_re"@.len() == 9 && "weight_im"@.len() == 9);
    assert("bias"@.len() == 4 && "bias_re"@.len() == 7 && "bias_im"@.len() == 7);
    assert("bias_re"@[5] == 'r' && "bias_im"@[5] == 'i');
}

/// A bias without a weight beside it starts at minus a tenth, a scale at one, a shift at
/// zero; a dimension of zero counts as one.
pub proof fn constants_are_the_standing_ones(fan_in: usize)
    ensures
        fill_rule(Role::NormGamma) == Fill::Constant(Scalar { bits: 0x3ff0_0000_0000_0000 }),
        fill_rule(Role::NormBeta) == Fill::Constant(Scalar { bits: 0 }),
        fill_rule(Role::ModReLUBias) == Fill::Constant(Scalar { bits: 0xbfb9_9999_9999_999a }),
        fill_rule(Role::Unknown) == Fill::Constant(Scalar { bits: 0 }),
        fill_rule(Role::LinearWeight { fan_in }) is Uniform,
        fill_rule(Role::LinearBias { fan_in }) is Uniform,
        fill_rule(Role::ComplexLinearWeight { fan_in }) is Normal,
        fan_in > 0 ==> at_least_one(fan_in) == fan_in,
        at_least_one(0) == 1,
{
}

/// A name is its prefix, a dot and its suffix, and the suffix has no dot; a name without a
/// dot is all suffix.
pub proof fn names_are_prefix_and_suffix(name: Seq<char>)
    ensures
        name.contains('.') ==> name == before_last_dot(name) + seq!['.'] + after_last_dot(name),
        !name.contains('.') ==> before_last_dot(name).len() == 0 && after_last_dot(name) == name,
        !after_last_dot(name).contains('.'),
{
    lemma_dot_is_last(name);
    let d = last_dot(name);
    if name.contains('.') {
        let k = choose|k: int| 0 <= k < name.len() && name[k] == '.';
        assert(name =~= before_last_dot(name) + seq!['.'] + after_last_dot(name));
    } else if d >= 0 {
        assert(name[d] == '.');
    }
    if after_last_dot(name).contains('.') {
        let k = choose|k: int|
            0 <= k < after_last_dot(name).len() && after_last_dot(name)[k] == '.';
        assert(name[k + d + 1] == '.');
    }
}

proof fn lemma_dot_is_last(s: Seq<char>)
    ensures
        -1 <= last_dot(s) < s.len(),
        last_dot(s) >= 0 ==> s[last_dot(s)] == '.',
        forall|k: int| last_dot(s) < k < s.len() ==> (#[trigger] s[k]) != '.',
    decreases s.len(),
{
    if s.len() > 0 && s.last() != '.' {
        let shorter = s.drop_last();
        lemma_dot_is_last(shorter);
        assert forall|k: int| last_dot(s) < k < s.len() implies (#[trigger] s[k]) != '.' by {
            if k < shorter.len() {
                assert(shorter[k] == s[k]);
            }
        }
    }
}

/// Names are compared as words in a dictionary are: no name comes before itself, a name
/// comes before all that begin with it, and else the first difference decides.
pub proof fn names_compare_as_words(
    head: Seq<char>,
    a: char,
    b: char,
    first: Seq<char>,
    second: Seq<char>,
)
    ensures
        !text_before(head, head),
        text_before(head, head + seq![a] + first),
        !text_before(head + seq![a] + first, head),
        a != b ==> (text_before(head + seq![a] + first, head + seq![b] + second) <==> a < b),
    decreases head.len(),
{
    let left = head + seq![a] + first;
    let right = head + seq![b] + second;
    if head.len() > 0 {
        let rest = head.drop_first();
        names_compare_as_words(rest, a, b, first, second);
        assert(left.drop_first() =~= rest + seq![a] + first);
        assert(right.drop_first() =~= rest + seq![b] + second);
        assert(left[0] == head[0] && right[0] == head[0]);
    } else {
        assert(left[0] == a && right[0] == b);
    }
}

/// The plan fills every variable that holds anything: for each there is a step with its
/// name, its number of elements and the fill that its role asks for, and every step is of
/// such a variable.
pub proof fn every_variable_is_filled(
    vars: Seq<VarShape>,
    sorted: Seq<VarShape>,
    steps: Seq<InitStep>,
    i: int,
)
    requires
        is_plan_of(vars, sorted, steps),
    ensures
        0 <= i < vars.len() && element_count(vars[i].dims@) > 0 ==> exists|k: int|
            0 <= k < steps.len() && (#[trigger] steps[k]).name@ == vars[i].name@
                && steps[k].elem_count == element_count(vars[i].dims@) && steps[k].fill
                == fill_rule(role_of(vars[i].name@, vars[i].dims@, sorted)),
        0 <= i < steps.len() ==> steps[i].elem_count > 0 && exists|k: int|
            0 <= k < vars.len() && (#[trigger] vars[k]).name@ == steps[i].name@
                && steps[i].elem_count == element_count(vars[k].dims@),
        forall|a: int, b: int|
            0 <= a < b < steps.len() ==> !text_before(
                (#[trigger] steps[b]).name@,
                (#[trigger] steps[a]).name@,
            ),
{
    let pred = |v: VarShape| element_count(v.dims@) > 0;
    let kept = non_empty(sorted);
    if 0 <= i < vars.len() && element_count(vars[i].dims@) > 0 {
        assert(vars.contains(vars[i]));
        vstd::seq_lib::to_multiset_contains(vars, vars[i]);
        vstd::seq_lib::to_multiset_contains(sorted, vars[i]);
        assert(sorted.contains(vars[i]));
        let m = choose|m: int| 0 <= m < sorted.len() && sorted[m] == vars[i];
        sorted.lemma_filter_contains(pred, m);
        let k = choose|k: int| 0 <= k < kept.len() && kept[k] == vars[i];
        assert(fills(steps[k], kept[k], sorted));
    }
    if 0 <= i < steps.len() {
        assert(fills(steps[i], kept[i], sorted));
        sorted.lemma_filter_pred(pred, i);
        assert(kept.contains(kept[i]));
        sorted.lemma_filter_contains_rev(pred, kept[i]);
        vstd::seq_lib::to_multiset_contains(vars, kept[i]);
        vstd::seq_lib::to_multiset_contains(sorted, kept[i]);
        assert(vars.contains(kept[i]));
        let k = choose|k: int| 0 <= k < vars.len() && vars[k] == kept[i];
        assert(vars[k].name@ == steps[i].name@);
    }
    lemma_filtered_in_order(sorted);
    assert forall|a: int, b: int| 0 <= a < b < steps.len() implies !text_before(
        (#[trigger] steps[b]).name@,
        (#[trigger] steps[a]).name@,
    ) by {
        assert(fills(steps[a], kept[a], sorted));
        assert(fills(steps[b], kept[b], sorted));
        assert(!text_before(kept[b].name@, kept[a].name@));
    }
}

proof fn lemma_filtered_in_order(vars: Seq<VarShape>)
    requires
        names_in_order(vars),
    ensures
        names_in_order(non_empty(vars)),
    decreases vars.len(),
{
    reveal(Seq::filter);
    if vars.len() > 0 {
        let head = vars.drop_last();
        assert forall|i: int, j: int| 0 <= i < j < head.len() implies !text_before(
            (#[trigger] head[j]).name@,
            (#[trigger] head[i]).name@,
        ) by {
            assert(!text_before(vars[j].name@, vars[i].name@));
        }
        lemma_filtered_in_order(head);
        let pred = |v: VarShape| element_count(v.dims@) > 0;
        let before = non_empty(head);
        let all = non_empty(vars);
        assert forall|i: int, j: int| 0 <= i < j < all.len() implies !text_before(
            (#[trigger] all[j]).name@,
            (#[trigger] all[i]).name@,
        ) by {
            if j < before.len() {
                assert(!text_before(before[j].name@, before[i].name@));
            } else {
                assert(before.contains(before[i]));
                head.lemma_filter_contains_rev(pred, before[i]);
                let m = choose|m: int| 0 <= m < head.len() && head[m] == before[i];
                assert(vars[m] == before[i]);
                assert(vars[vars.len() - 1] == all[j]);
                assert(!text_before(vars[vars.len() - 1].name@, vars[m].name@));
            }
        }
    }
}

/// The dimensions that a name stands for are those of a variable of that name, and there
/// are none only where no variable has it.
pub proof fn dimensions_are_found_by_name(shapes: Seq<VarShape>, name: Seq<char>)
    ensures
        dims_named(shapes, name) matches Some(dims) ==> exists|k: int|
            0 <= k < shapes.len() && (#[trigger] shapes[k]).name@ == name && shapes[k].dims@
                == dims,
        dims_named(shapes, name) is None ==> forall|k: int|
            0 <= k < shapes.len() ==> (#[trigger] shapes[k]).name@ != name,
    decreases shapes.len(),
{
    if shapes.len() > 0 {
        let head = shapes.drop_last();
        let last = shapes.len() - 1;
        assert(shapes[last] == shapes.last());
        if shapes.last().name@ != name {
            dimensions_are_found_by_name(head, name);
            if dims_named(head, name) is Some {
                let k = choose|k: int|
                    0 <= k < head.len() && (#[trigger] head[k]).name@ == name && head[k].dims@
                        == dims_named(head, name)->0;
                assert(shapes[k].name@ == name);
            } else {
                assert forall|k: int| 0 <= k < shapes.len() implies (#[trigger] shapes[k]).name@
                    != name by {
                    if k < last {
                        assert(head[k].name@ != name);
                    }
                }
            }
        }
    }
}

/// The last dimension of a shape is the one that was put last, and one where there is none.
pub proof fn last_dimensions_come_last(dims: Seq<usize>, last: usize)
    ensures
        last_dim(dims.push(last)) == last,
        last_dim(Seq::<usize>::empty()) == 1,
{
}

/// Another dimension multiplies the number of values; without dimensions there is one.
pub proof fn dimensions_multiply(dims: Seq<usize>, last: usize, a: usize, b: usize)
    ensures
        element_count(Seq::<usize>::empty()) == 1,
        element_count(dims.push(last)) == element_count(dims) * last,
        element_count(seq![a, b]) == a * b,
{
    assert(dims.push(last).drop_last() =~= dims);
    let one = seq![a];
    assert(seq![a, b].drop_last() =~= one);
    assert(one.drop_last() =~= Seq::<usize>::empty());
    assert(element_count(Seq::<usize>::empty()) == 1);
    assert(element_count(one) == element_count(one.drop_last()) * a);
    assert(1 * a == a);
    assert(element_count(seq![a, b]) == element_count(one) * b);
}

} // verus!

//! Tensors of values, and the row and column moves that batching and packing
//! are made of.

use crate::base::determinism::element_count;
use crate::scalar::Scalar;
use vstd::prelude::*;

verus! {

/// The element type that a tensor is stored in.
#[derive(Clone, Copy, Debug, PartialEq, Eq, Structural)]
pub enum DType {
    U8,
    U32,
    I16,
    I32,
    I64,
    BF16,
    F16,
    F32,
    F64,
}

/// Where a tensor is stored. Devices are told apart by the number that each has in its
/// process; two handles of one graphics card are two devices.
#[derive(Clone, Copy, Debug, PartialEq, Eq, Structural)]
pub enum Device {
    Cpu,
    Cuda(usize),
    Metal(usize),
}

/// Values in row-major order, each widened to a double, with their dimensions.
#[derive(Debug)]
pub struct Tensor {
    pub dims: Vec<usize>,
    pub values: Vec<Scalar>,
    pub dtype: DType,
    pub device: Device,
}

/// Row `r` of row-major `values` with `cols` columns.
pub open spec fn row_of(values: Seq<Scalar>, cols: int, r: int) -> Seq<Scalar> {
    values.subrange(r * cols, r * cols + cols)
}

/// The first `count` rows of row-major `values` with `cols` columns.
pub open spec fn rows_of(values: Seq<Scalar>, cols: int, count: nat) -> Seq<Seq<Scalar>> {
    Seq::new(count, |r: int| row_of(values, cols, r))
}

impl Tensor {
    /// There are as many values as the dimensions ask for.
    pub open spec fn wf(&self) -> bool {
        self.values@.len() == element_count(self.dims@)
    }

    /// A matrix with at least one row and one column.
    pub open spec fn is_matrix(&self) -> bool {
        self.wf() && self.dims@.len() == 2 && self.dims@[0] > 0 && self.dims@[1] > 0
    }

    pub open spec fn column_count(&self) -> int {
        self.dims@[1] as int
    }

    /// The rows of a matrix.
    pub open spec fn rows(&self) -> Seq<Seq<Scalar>> {
        rows_of(self.values@, self.column_count(), self.dims@[0] as nat)
    }

    /// The same dimensions, values, element type and place.
    pub open spec fn same_as(&self, other: Tensor) -> bool {
        &&& self.dims@ == other.dims@
        &&& self.values@ == other.values@
        &&& self.dtype == other.dtype
        &&& self.device == other.device
    }

    /// A copy.
    pub fn copied(&self) -> (result: Tensor)
        ensures
            result.same_as(*self),
    {
        Tensor {
            dims: self.dims.clone(),
            values: self.values.clone(),
            dtype: self.dtype,
            device: self.device,
        }
    }
}

/// Whether two lists of dimensions are the same.
pub fn equal_dims(a: &Vec<usize>, b: &Vec<usize>) -> (result: bool)
    ensures
        result == (a@ == b@),
{
    if a.len() != b.len() {
        return false;
    }
    let mut i: usize = 0;
    while i < a.len()
        invariant
            i <= a@.len(),
            a@.len() == b@.len(),
            forall|k: int| 0 <= k < i ==> #[trigger] a@[k] == b@[k],
        decreases a@.len() - i,
    {
        if a[i] != b[i] {
            return false;
        }
        i += 1;
    }
    proof {
        assert(a@ == b@);
    }
    true
}

/// A matrix has as many values as its rows and columns ask for.
pub proof fn lemma_matrix_size(t: Tensor)
    requires
        t.wf(),
        t.dims@.len() == 2,
    ensures
        t.values@.len() == t.dims@[0] * t.dims@[1],
{
    lemma_element_count_of_two(t.dims@);
}

pub proof fn lemma_element_count_of_two(dims: Seq<usize>)
    requires
        dims.len() == 2,
    ensures
        element_count(dims) == dims[0] * dims[1],
{
    reveal_with_fuel(element_count, 3);
    assert(dims.drop_last().drop_last().len() == 0);
    assert(dims.drop_last().last() == dims[0]);
    assert(1 * (dims[0] as nat) == dims[0]);
}

/// A row lies within the values of its matrix.
pub proof fn lemma_row_bounds(cols: int, count: int, r: int)
    requires
        0 <= r < count,
        0 <= cols,
    ensures
        0 <= r * cols,
        r * cols + cols <= count * cols,
{
    assert(0 <= r * cols && r * cols + cols <= count * cols) by (nonlinear_arith)
        requires
            0 <= r < count,
            0 <= cols,
    ;
}

/// Appending a row's values appends the row.
pub proof fn lemma_push_row(values: Seq<Scalar>, cols: int, count: nat, row: Seq<Scalar>)
    requires
        cols >= 0,
        values.len() == count * cols,
        row.len() == cols,
    ensures
        rows_of(values + row, cols, count + 1) == rows_of(values, cols, count).push(row),
        (values + row).len() == (count + 1) * cols,
{
    assert((count + 1) * cols == count * cols + cols) by (nonlinear_arith);
    let longer = rows_of(values + row, cols, count + 1);
    assert forall|r: int| 0 <= r < count + 1 implies #[trigger] longer[r] == rows_of(
        values,
        cols,
        count,
    ).push(row)[r] by {
        if r < count {
            lemma_row_bounds(cols, count as int, r);
            assert(row_of(values + row, cols, r) == row_of(values, cols, r));
        } else {
            lemma_row_bounds(cols, count as int + 1, r);
            assert(row_of(values + row, cols, r) == row);
        }
    }
    assert(longer == rows_of(values, cols, count).push(row));
}

/// Appends `source[from..from + count]` to `target`.
pub fn append_values(target: &mut Vec<Scalar>, source: &Vec<Scalar>, from: usize, count: usize)
    requires
        from + count <= source@.len(),
    ensures
        final(target)@ == old(target)@ + source@.subrange(from as int, from + count),
{
    let held: usize = source.len();
    let mut i: usize = 0;
    proof {
        assert(target@ == old(target)@ + source@.subrange(from as int, from as int));
    }
    while i < count
        invariant
            i <= count,
            held == source@.len(),
            from + count <= source@.len(),
            target@ == old(target)@ + source@.subrange(from as int, from + i),
        decreases count - i,
    {
        target.push(source[from + i]);
        proof {
            assert(source@.subrange(from as int, from + i + 1) == source@.subrange(
                from as int,
                from + i,
            ).push(source@[from + i]));
        }
        i += 1;
    }
}

/// The matrix of `rows` rows and `cols` columns with the given values.
pub fn matrix(rows: usize, cols: usize, values: Vec<Scalar>, dtype: DType, device: Device) -> (result:
    Tensor)
    requires
        values@.len() == rows * cols,
    ensures
        result.wf(),
        result.dims@ == seq![rows, cols],
        result.values@ == values@,
        result.dtype == dtype,
        result.device == device,
{
    let mut dims: Vec<usize> = Vec::new();
    dims.push(rows);
    dims.push(cols);
    proof {
        assert(dims@ == seq![rows, cols]);
        lemma_element_count_of_two(dims@);
    }
    Tensor { dims, values, dtype, device }
}

/// `count` rows from row `start` on.
pub fn narrow_rows(source: &Tensor, start: usize, count: usize) -> (result: Tensor)
    requires
        source.is_matrix(),
        start + count <= source.dims@[0],
    ensures
        result.wf(),
        result.dims@ == seq![count, source.dims@[1]],
        result.rows() == source.rows().subrange(start as int, start + count),
        result.dtype == source.dtype,
        result.device == source.device,
{
    let cols: usize = source.dims[1];
    let mut values: Vec<Scalar> = Vec::new();
    let held: usize = source.values.len();
    proof {
        lemma_matrix_size(*source);
    }
    let mut i: usize = 0;
    while i < count
        invariant
            i <= count,
            source.is_matrix(),
            held == source.values@.len(),
            source.values@.len() == source.dims@[0] * source.dims@[1],
            cols == source.dims@[1],
            start + count <= source.dims@[0],
            values@.len() == i * cols,
            rows_of(values@, cols as int, i as nat) == source.rows().subrange(
                start as int,
                start + i,
            ),
        decreases count - i,
    {
        let ghost before = values@;
        proof {
            lemma_row_bounds(cols as int, source.dims@[0] as int, start + i);
            lemma_push_row(
                before,
                cols as int,
                i as nat,
                row_of(source.values@, cols as int, start + i),
            );
        }
        append_values(&mut values, &source.values, (start + i) * cols, cols);
        proof {
            assert(source.rows().subrange(start as int, start + i + 1) == source.rows().subrange(
                start as int,
                start + i,
            ).push(source.rows()[start + i]));
        }
        i += 1;
    }
    matrix(count, cols, values, source.dtype, source.device)
}

/// The rows that `indices` lists, in that order.
pub fn select_rows(source: &Tensor, indices: &[u32]) -> (result: Tensor)
    requires
        source.is_matrix(),
        forall|i: int| 0 <= i < indices@.len() ==> #[trigger] indices@[i] < source.dims@[0],
    ensures
        result.wf(),
        result.dims@ == seq![indices@.len() as usize, source.dims@[1]],
        result.rows() == Seq::new(
            indices@.len(),
            |i: int| source.rows()[indices@[i] as int],
        ),
        result.dtype == source.dtype,
        result.device == source.device,
{
    let cols: usize = source.dims[1];
    let mut values: Vec<Scalar> = Vec::new();
    let held: usize = source.values.len();
    proof {
        lemma_matrix_size(*source);
    }
    let mut i: usize = 0;
    while i < indices.len()
        invariant
            i <= indices@.len(),
            source.is_matrix(),
            held == source.values@.len(),
            source.values@.len() == source.dims@[0] * source.dims@[1],
            cols == source.dims@[1],
            forall|i: int| 0 <= i < indices@.len() ==> #[trigger] indices@[i] < source.dims@[0],
            values@.len() == i * cols,
            rows_of(values@, cols as int, i as nat) == Seq::new(
                i as nat,
                |k: int| source.rows()[indices@[k] as int],
            ),
        decreases indices@.len() - i,
    {
        let index: usize = indices[i] as usize;
        let ghost before = values@;
        proof {
            assert(indices@[i as int] < source.dims@[0]);
            lemma_row_bounds(cols as int, source.dims@[0] as int, index as int);
            lemma_push_row(
                before,
                cols as int,
                i as nat,
                row_of(source.values@, cols as int, index as int),
            );
        }
        append_values(&mut values, &source.values, index * cols, cols);
        proof {
            assert(Seq::new((i + 1) as nat, |k: int| source.rows()[indices@[k] as int]) == Seq::new(
                i as nat,
                |k: int| source.rows()[indices@[k] as int],
            ).push(source.rows()[index as int]));
        }
        i += 1;
    }
    matrix(indices.len(), cols, values, source.dtype, source.device)
}

/// `count` columns from column `start` on.
pub fn narrow_columns(source: &Tensor, start: usize, count: usize) -> (result: Tensor)
    requires
        source.wf(),
        source.dims@.len() == 2,
        start + count <= source.dims@[1],
    ensures
        result.wf(),
        result.dims@ == seq![source.dims@[0], count],
        result.rows() == source.rows().map_values(
            |row: Seq<Scalar>| row.subrange(start as int, start + count),
        ),
        result.dtype == source.dtype,
        result.device == source.device,
{
    let rows: usize = source.dims[0];
    let cols: usize = source.dims[1];
    let mut values: Vec<Scalar> = Vec::new();
    let held: usize = source.values.len();
    proof {
        lemma_matrix_size(*source);
    }
    let mut i: usize = 0;
    while i < rows
        invariant
            i <= rows,
            source.wf(),
            source.dims@.len() == 2,
            held == source.values@.len(),
            source.values@.len() == source.dims@[0] * source.dims@[1],
            rows == source.dims@[0],
            cols == source.dims@[1],
            start + count <= cols,
            values@.len() == i * count,
            rows_of(values@, count as int, i as nat) == source.rows().take(i as int).map_values(
                |row: Seq<Scalar>| row.subrange(start as int, start + count),
            ),
        decreases rows - i,
    {
        let ghost before = values@;
        let ghost whole = row_of(source.values@, cols as int, i as int);
        let ghost part = whole.subrange(start as int, start + count);
        proof {
            lemma_row_bounds(cols as int, rows as int, i as int);
            lemma_push_row(before, count as int, i as nat, part);
            assert(source.values@.subrange(i * cols + start, i * cols + start + count) == part);
        }
        append_values(&mut values, &source.values, i * cols + start, count);
        proof {
            assert(source.rows().take(i + 1).map_values(
                |row: Seq<Scalar>| row.subrange(start as int, start + count),
            ) == source.rows().take(i as int).map_values(
                |row: Seq<Scalar>| row.subrange(start as int, start + count),
            ).push(part));
        }
        i += 1;
    }
    proof {
        assert(source.rows().take(rows as int) == source.rows());
    }
    matrix(rows, count, values, source.dtype, source.device)
}

/// The columns of `left` followed by those of `right`.
pub fn join_columns(left: &Tensor, right: &Tensor) -> (result: Tensor)
    requires
        left.wf(),
        right.wf(),
        left.dims@.len() == 2,
        right.dims@.len() == 2,
        left.dims@[0] == right.dims@[0],
        left.dims@[1] + right.dims@[1] <= usize::MAX,
    ensures
        result.wf(),
        result.dims@ == seq![left.dims@[0], (left.dims@[1] + right.dims@[1]) as usize],
        result.rows() == Seq::new(
            left.dims@[0] as nat,
            |r: int| left.rows()[r] + right.rows()[r],
        ),
        result.dtype == left.dtype,
        result.device == left.device,
{
    let rows: usize = left.dims[0];
    let a: usize = left.dims[1];
    let b: usize = right.dims[1];
    let total: usize = a + b;
    let mut values: Vec<Scalar> = Vec::new();
    let held_left: usize = left.values.len();
    let held_right: usize = right.values.len();
    proof {
        lemma_matrix_size(*left);
        lemma_matrix_size(*right);
    }
    let mut i: usize = 0;
    while i < rows
        invariant
            i <= rows,
            left.wf(),
            right.wf(),
            left.dims@.len() == 2,
            right.dims@.len() == 2,
            held_left == left.values@.len(),
            held_right == right.values@.len(),
            left.values@.len() == left.dims@[0] * left.dims@[1],
            right.values@.len() == right.dims@[0] * right.dims@[1],
            rows == left.dims@[0],
            rows == right.dims@[0],
            a == left.dims@[1],
            b == right.dims@[1],
            total == a + b,
            values@.len() == i * total,
            rows_of(values@, total as int, i as nat) == Seq::new(
                i as nat,
                |r: int| left.rows()[r] + right.rows()[r],
            ),
        decreases rows - i,
    {
        let ghost before = values@;
        let ghost first = row_of(left.values@, a as int, i as int);
        let ghost second = row_of(right.values@, b as int, i as int);
        proof {
            lemma_row_bounds(a as int, rows as int, i as int);
            lemma_row_bounds(b as int, rows as int, i as int);
            lemma_push_row(before, total as int, i as nat, first + second);
        }
        append_values(&mut values, &left.values, i * a, a);
        append_values(&mut values, &right.values, i * b, b);
        proof {
            assert(values@ == before + (first + second));
            assert(Seq::new((i + 1) as nat, |r: int| left.rows()[r] + right.rows()[r]) == Seq::new(
                i as nat,
                |r: int| left.rows()[r] + right.rows()[r],
            ).push(first + second));
        }
        i += 1;
    }
    matrix(rows, total, values, left.dtype, left.device)
}

/// The rows of matrices, one after the other.
pub open spec fn all_rows(parts: Seq<Tensor>) -> Seq<Seq<Scalar>>
    decreases parts.len(),
{
    if parts.len() == 0 {
        Seq::<Seq<Scalar>>::empty()
    } else {
        all_rows(parts.drop_last()) + parts.last().rows()
    }
}

/// Matrices with the same number of columns.
pub open spec fn equally_wide(parts: Seq<Tensor>) -> bool {
    forall|i: int|
        0 <= i < parts.len() ==> {
            &&& (#[trigger] parts[i]).wf()
            &&& parts[i].dims@.len() == 2
            &&& parts[i].dims@[1] == parts[0].dims@[1]
        }
}

proof fn lemma_all_rows_grow(parts: Seq<Tensor>, k: int)
    requires
        0 <= k <= parts.len(),
    ensures
        all_rows(parts.take(k)).len() <= all_rows(parts).len(),
    decreases parts.len(),
{
    if k < parts.len() {
        assert(parts.drop_last().take(k) == parts.take(k));
        lemma_all_rows_grow(parts.drop_last(), k);
    } else {
        assert(parts.take(k) == parts);
    }
}

proof fn lemma_append_rows(values: Seq<Scalar>, more: Seq<Scalar>, cols: int, a: nat, b: nat)
    requires
        cols >= 0,
        values.len() == a * cols,
        more.len() == b * cols,
    ensures
        rows_of(values + more, cols, a + b) == rows_of(values, cols, a) + rows_of(more, cols, b),
        (values + more).len() == (a + b) * cols,
{
    let joined = values + more;
    assert(joined.len() == (a + b) * cols) by (nonlinear_arith)
        requires
            joined.len() == a * cols + b * cols,
    ;
    assert forall|r: int| 0 <= r < a + b implies #[trigger] row_of(joined, cols, r) == if r < a {
        row_of(values, cols, r)
    } else {
        row_of(more, cols, r - a)
    } by {
        lemma_row_bounds(cols, (a + b) as int, r);
        if r < a {
            lemma_row_bounds(cols, a as int, r);
            assert(row_of(joined, cols, r) =~= row_of(values, cols, r));
        } else {
            lemma_row_bounds(cols, b as int, r - a);
            assert(r * cols == a * cols + (r - a) * cols) by (nonlinear_arith);
            assert(row_of(joined, cols, r) =~= row_of(more, cols, r - a));
        }
    }
    assert(rows_of(joined, cols, a + b) =~= rows_of(values, cols, a) + rows_of(more, cols, b));
}

/// The rows of matrices, one after the other.
pub fn join_rows(parts: &Vec<Tensor>) -> (result: Tensor)
    requires
        parts@.len() > 0,
        equally_wide(parts@),
        all_rows(parts@).len() <= usize::MAX,
    ensures
        result.wf(),
        result.dims@ == seq![all_rows(parts@).len() as usize, parts@[0].dims@[1]],
        result.rows() == all_rows(parts@),
        result.dtype == parts@[0].dtype,
        result.device == parts@[0].device,
{
    let cols: usize = parts[0].dims[1];
    let mut values: Vec<Scalar> = Vec::new();
    let mut total: usize = 0;
    let mut i: usize = 0;
    proof {
        assert(parts@.take(0) == Seq::<Tensor>::empty());
        assert(rows_of(values@, cols as int, 0) =~= Seq::<Seq<Scalar>>::empty());
    }
    while i < parts.len()
        invariant
            i <= parts@.len(),
            parts@.len() > 0,
            cols == parts@[0].dims@[1],
            equally_wide(parts@),
            all_rows(parts@).len() <= usize::MAX,
            total == all_rows(parts@.take(i as int)).len(),
            values@.len() == total * cols,
            rows_of(values@, cols as int, total as nat) == all_rows(parts@.take(i as int)),
        decreases parts@.len() - i,
    {
        let part = &parts[i];
        let ghost before = values@;
        proof {
            assert(parts@.take(i + 1).drop_last() == parts@.take(i as int));
            assert(parts@.take(i + 1).last() == *part);
            lemma_all_rows_grow(parts@, i + 1);
            lemma_matrix_size(*part);
            lemma_append_rows(
                before,
                part.values@,
                cols as int,
                total as nat,
                part.dims@[0] as nat,
            );
        }
        let count: usize = part.values.len();
        append_values(&mut values, &part.values, 0, count);
        proof {
            assert(part.values@.subrange(0, part.values@.len() as int) == part.values@);
        }
        total = total + part.dims[0];
        i += 1;
    }
    proof {
        assert(parts@.take(parts@.len() as int) == parts@);
    }
    matrix(total, cols, values, parts[0].dtype, parts[0].device)
}

/// The value in row `r` and column `c` of a matrix stands behind all rows before it.
pub proof fn rows_lie_one_after_the_other(t: Tensor, r: int, c: int)
    requires
        t.wf(),
        t.dims@.len() == 2,
        0 <= r < t.dims@[0],
        0 <= c < t.dims@[1],
    ensures
        t.rows().len() == t.dims@[0],
        t.rows()[r].len() == t.dims@[1],
        t.rows()[r][c] == t.values@[r * t.dims@[1] + c],
{
    lemma_matrix_size(t);
    lemma_row_bounds(t.dims@[1] as int, t.dims@[0] as int, r);
}

/// A matrix has two dimensions, neither of them empty, and a value for every place.
pub proof fn matrices_are_not_empty(t: Tensor)
    ensures
        t.is_matrix() <==> t.wf() && t.dims@.len() == 2 && t.dims@[0] > 0 && t.dims@[1] > 0,
        t.is_matrix() ==> t.values@.len() == t.dims@[0] * t.dims@[1] && t.values@.len() > 0,
{
    if t.is_matrix() {
        lemma_matrix_size(t);
        assert(t.dims@[0] * t.dims@[1] > 0) by (nonlinear_arith)
            requires
                t.dims@[0] > 0,
                t.dims@[1] > 0,
        ;
    }
}

/// Tensors are the same where they agree in shape, values, type and place.
pub proof fn same_tensors_agree_in_everything(a: Tensor, b: Tensor)
    requires
        a.same_as(b),
    ensures
        a.dims@ == b.dims@ && a.values@ == b.values@,
        a.dtype == b.dtype && a.device == b.device,
        b.same_as(a),
{
}

} // verus!

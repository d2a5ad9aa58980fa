//! Detection of regular grids in the permittivity plane.

use crate::scalar::Scalar;
use crate::sort::{find_in_axis, strictly_in_order, unique_sorted};
use vstd::prelude::*;
use vstd::set_lib::{lemma_int_range, lemma_subset_equality, set_int_range};

verus! {

/// A regular grid over the two permittivity axes.
#[derive(Debug)]
pub struct GridStructure {
    /// The different values of the real part, ascending.
    pub eps_prime_values: Vec<Scalar>,
    /// The different values of the loss part, ascending.
    pub eps_double_prime_values: Vec<Scalar>,
    /// How many values each axis has.
    pub dims: (usize, usize),
}

/// Two points of a cloud are the same, bit for bit.
pub open spec fn same_point(xs: Seq<Scalar>, ys: Seq<Scalar>, i: int, j: int) -> bool {
    xs[i] == xs[j] && ys[i] == ys[j]
}

/// Some point has the first coordinate of point `i` and the second of point `j`.
pub open spec fn crossing_exists(xs: Seq<Scalar>, ys: Seq<Scalar>, i: int, j: int) -> bool {
    exists|k: int| 0 <= k < xs.len() && #[trigger] xs[k] == xs[i] && ys[k] == ys[j]
}

/// The points `(xs[i], ys[i])` are finite, each different from the others, and
/// hold every combination of a first and a second coordinate that occur.
pub open spec fn forms_grid(xs: Seq<Scalar>, ys: Seq<Scalar>) -> bool {
    &&& xs.len() == ys.len()
    &&& xs.len() > 0
    &&& forall|i: int| 0 <= i < xs.len() ==> (#[trigger] xs[i]).finite()
    &&& forall|i: int| 0 <= i < ys.len() ==> (#[trigger] ys[i]).finite()
    &&& forall|i: int, j: int|
        0 <= i < j < xs.len() ==> !(#[trigger] same_point(xs, ys, i, j))
    &&& forall|i: int, j: int|
        0 <= i < xs.len() && 0 <= j < xs.len() ==> #[trigger] crossing_exists(xs, ys, i, j)
}

/// An axis lists the different values of `values`, ascending.
pub open spec fn is_axis_of(axis: Seq<Scalar>, values: Seq<Scalar>) -> bool {
    strictly_in_order(axis) && (forall|v: Scalar| #[trigger]
        axis.contains(v) <==> values.contains(v))
}

/// The number of the cell in row `y` and column `x` of a grid `width` wide.
pub open spec fn cell(width: int, x: int, y: int) -> int {
    y * width + x
}

/// `cells[i]` is the cell of the point `(xs[i], ys[i])`.
spec fn locates(
    xs: Seq<Scalar>,
    ys: Seq<Scalar>,
    axis_x: Seq<Scalar>,
    axis_y: Seq<Scalar>,
    cells: Seq<int>,
    i: int,
) -> bool {
    exists|x: int, y: int|
        0 <= x < axis_x.len() && 0 <= y < axis_y.len() && cells[i] == #[trigger] cell(
            axis_x.len() as int,
            x,
            y,
        ) && axis_x[x] == xs[i] && axis_y[y] == ys[i]
}

proof fn lemma_cell_bounds(width: int, height: int, x: int, y: int)
    requires
        0 <= x < width,
        0 <= y < height,
    ensures
        0 <= cell(width, x, y) < width * height,
{
    assert(0 <= y * width + x < width * height) by (nonlinear_arith)
        requires
            0 <= x < width,
            0 <= y < height,
    ;
}

proof fn lemma_cell_injective(width: int, x1: int, y1: int, x2: int, y2: int)
    requires
        0 <= x1 < width,
        0 <= x2 < width,
        cell(width, x1, y1) == cell(width, x2, y2),
    ensures
        x1 == x2,
        y1 == y2,
{
    assert(y1 == y2) by (nonlinear_arith)
        requires
            0 <= x1 < width,
            0 <= x2 < width,
            y1 * width + x1 == y2 * width + x2,
    ;
}

/// Cells that are located and all different fill the grid exactly when they are
/// as many as the grid has.
proof fn lemma_cells_fill(
    xs: Seq<Scalar>,
    ys: Seq<Scalar>,
    axis_x: Seq<Scalar>,
    axis_y: Seq<Scalar>,
    cells: Seq<int>,
)
    requires
        xs.len() == ys.len() == cells.len(),
        forall|i: int| 0 <= i < cells.len() ==> #[trigger] locates(xs, ys, axis_x, axis_y, cells, i),
        cells.no_duplicates(),
        cells.len() == axis_x.len() * axis_y.len(),
    ensures
        forall|c: int| 0 <= c < cells.len() ==> #[trigger] cells.contains(c),
{
    let total = axis_x.len() * axis_y.len();
    let all = set_int_range(0, total as int);
    lemma_int_range(0, total as int);
    cells.unique_seq_to_set();
    vstd::seq_lib::seq_to_set_is_finite(cells);
    assert(cells.to_set().subset_of(all)) by {
        assert forall|c: int| cells.to_set().contains(c) implies all.contains(c) by {
            let i = choose|i: int| 0 <= i < cells.len() && cells[i] == c;
            assert(locates(xs, ys, axis_x, axis_y, cells, i));
            let (x, y) = choose|x: int, y: int|
                0 <= x < axis_x.len() && 0 <= y < axis_y.len() && cells[i] == #[trigger] cell(
                    axis_x.len() as int,
                    x,
                    y,
                ) && axis_x[x] == xs[i] && axis_y[y] == ys[i];
            lemma_cell_bounds(axis_x.len() as int, axis_y.len() as int, x, y);
        }
    }
    lemma_subset_equality(cells.to_set(), all);
    assert forall|c: int| 0 <= c < cells.len() implies #[trigger] cells.contains(c) by {
        assert(all.contains(c));
        assert(cells.to_set().contains(c));
    }
}

/// Points that form a grid are as many as their axes have crossings.
proof fn lemma_grid_size(
    xs: Seq<Scalar>,
    ys: Seq<Scalar>,
    axis_x: Seq<Scalar>,
    axis_y: Seq<Scalar>,
)
    requires
        forms_grid(xs, ys),
        is_axis_of(axis_x, xs),
        is_axis_of(axis_y, ys),
    ensures
        xs.len() == axis_x.len() * axis_y.len(),
{
    let width = axis_x.len() as int;
    let height = axis_y.len() as int;
    let cells = Seq::new(
        xs.len(),
        |i: int| cell(width, axis_x.index_of(xs[i]), axis_y.index_of(ys[i])),
    );
    assert forall|i: int| 0 <= i < xs.len() implies 0 <= axis_x.index_of(xs[i]) < width
        && axis_x[axis_x.index_of(xs[i])] == xs[i] && 0 <= axis_y.index_of(ys[i]) < height
        && axis_y[axis_y.index_of(ys[i])] == ys[i] && #[trigger] cells[i] == cell(
        width,
        axis_x.index_of(xs[i]),
        axis_y.index_of(ys[i]),
    ) by {
        assert(xs.contains(xs[i]));
        assert(ys.contains(ys[i]));
        assert(axis_x.contains(xs[i]));
        assert(axis_y.contains(ys[i]));
    }
    assert(cells.no_duplicates()) by {
        assert forall|i: int, j: int|
            0 <= i < cells.len() && 0 <= j < cells.len() && i != j implies cells[i] != cells[j] by {
            if cells[i] == cells[j] {
                lemma_cell_injective(
                    width,
                    axis_x.index_of(xs[i]),
                    axis_y.index_of(ys[i]),
                    axis_x.index_of(xs[j]),
                    axis_y.index_of(ys[j]),
                );
                assert(same_point(xs, ys, i, j));
                assert(same_point(xs, ys, j, i));
            }
        }
    }
    cells.unique_seq_to_set();
    let all = set_int_range(0, width * height);
    assert(0 <= width * height) by (nonlinear_arith)
        requires
            0 <= width,
            0 <= height,
    ;
    lemma_int_range(0, width * height);
    assert(cells.to_set() =~= all) by {
        assert forall|c: int| cells.to_set().contains(c) <==> all.contains(c) by {
            if cells.to_set().contains(c) {
                let i = choose|i: int| 0 <= i < cells.len() && cells[i] == c;
                lemma_cell_bounds(
                    width,
                    height,
                    axis_x.index_of(xs[i]),
                    axis_y.index_of(ys[i]),
                );
            }
            if all.contains(c) {
                let y = c / width;
                let x = c % width;
                assert(width > 0) by (nonlinear_arith)
                    requires
                        0 <= c < width * height,
                        0 <= width,
                ;
                vstd::arithmetic::div_mod::lemma_fundamental_div_mod(c, width);
                vstd::arithmetic::div_mod::lemma_mod_bound(c, width);
                assert(0 <= y < height) by (nonlinear_arith)
                    requires
                        0 <= c < width * height,
                        c == width * y + x,
                        0 <= x < width,
                ;
                assert(c == cell(width, x, y)) by (nonlinear_arith)
                    requires
                        c == width * y + x,
                        cell(width, x, y) == y * width + x,
                ;
                assert(axis_x.contains(axis_x[x]));
                assert(axis_y.contains(axis_y[y]));
                let i = choose|i: int| 0 <= i < xs.len() && xs[i] == axis_x[x];
                let j = choose|j: int| 0 <= j < ys.len() && ys[j] == axis_y[y];
                assert(crossing_exists(xs, ys, i, j));
                let k = choose|k: int|
                    0 <= k < xs.len() && #[trigger] xs[k] == xs[i] && ys[k] == ys[j];
                let x2 = axis_x.index_of(xs[k]);
                let y2 = axis_y.index_of(ys[k]);
                assert(cells[k] == cell(width, x2, y2));
                assert(axis_x[x2].total_rank() == axis_x[x].total_rank());
                assert(axis_y[y2].total_rank() == axis_y[y].total_rank());
                assert(x2 == x && y2 == y);
            }
        }
    }
}

fn all_finite(values: &[Scalar]) -> (result: bool)
    ensures
        result == (forall|i: int| 0 <= i < values@.len() ==> (#[trigger] values@[i]).finite()),
{
    let mut i: usize = 0;
    while i < values.len()
        invariant
            i <= values@.len(),
            forall|k: int| 0 <= k < i ==> (#[trigger] values@[k]).finite(),
        decreases values@.len() - i,
    {
        if !values[i].is_finite() {
            return false;
        }
        i += 1;
    }
    true
}

/// The grid that the points `(eps_prime[i], eps_double_prime[i])` form, if they do.
#[must_use]
pub fn detect_grid_structure(eps_prime: &[Scalar], eps_double_prime: &[Scalar]) -> (result: Option<
    GridStructure,
>)
    ensures
        result is Some <==> forms_grid(eps_prime@, eps_double_prime@),
        result matches Some(grid) ==> {
            &&& is_axis_of(grid.eps_prime_values@, eps_prime@)
            &&& is_axis_of(grid.eps_double_prime_values@, eps_double_prime@)
            &&& grid.dims.0 == grid.eps_prime_values@.len()
            &&& grid.dims.1 == grid.eps_double_prime_values@.len()
            &&& grid.dims.0 * grid.dims.1 == eps_prime@.len()
        },
{
    let n: usize = eps_prime.len();
    if n != eps_double_prime.len() || n == 0 {
        return None;
    }
    if !all_finite(eps_prime) || !all_finite(eps_double_prime) {
        return None;
    }
    let axis_x = unique_sorted(eps_prime);
    let axis_y = unique_sorted(eps_double_prime);
    let ghost xs = eps_prime@;
    let ghost ys = eps_double_prime@;
    let width: usize = axis_x.len();
    let height: usize = axis_y.len();
    let product: Option<usize> = width.checked_mul(height);
    if product != Some(n) {
        proof {
            if forms_grid(xs, ys) {
                lemma_grid_size(xs, ys, axis_x@, axis_y@);
            }
        }
        return None;
    }
    let mut seen: Vec<bool> = Vec::new();
    let mut filler: usize = 0;
    while filler < n
        invariant
            filler <= n,
            seen@.len() == filler,
            forall|c: int| 0 <= c < filler ==> !(#[trigger] seen@[c]),
        decreases n - filler,
    {
        seen.push(false);
        filler += 1;
    }
    let ghost mut cells: Seq<int> = Seq::empty();
    let mut i: usize = 0;
    while i < n
        invariant
            i <= n,
            n == eps_prime@.len() == eps_double_prime@.len() == seen@.len(),
            xs == eps_prime@,
            ys == eps_double_prime@,
            width == axis_x@.len(),
            height == axis_y@.len(),
            width * height == n,
            is_axis_of(axis_x@, xs),
            is_axis_of(axis_y@, ys),
            cells.len() == i,
            forall|k: int| 0 <= k < i ==> #[trigger] locates(xs, ys, axis_x@, axis_y@, cells, k),
            forall|k: int| 0 <= k < i ==> 0 <= #[trigger] cells[k] < n && seen@[cells[k]],
            forall|c: int| 0 <= c < n && #[trigger] seen@[c] ==> cells.contains(c),
            cells.no_duplicates(),
        decreases n - i,
    {
        proof {
            assert(xs.contains(xs[i as int]));
            assert(ys.contains(ys[i as int]));
            assert(axis_x@.contains(xs[i as int]));
            assert(axis_y@.contains(ys[i as int]));
        }
        let found_x: Option<usize> = find_in_axis(axis_x.as_slice(), eps_prime[i]);
        let found_y: Option<usize> = find_in_axis(axis_y.as_slice(), eps_double_prime[i]);
        let (x, y): (usize, usize) = match (found_x, found_y) {
            (Some(x), Some(y)) => (x, y),
            _ => {
                return None;
            },
        };
        proof {
            lemma_cell_bounds(width as int, height as int, x as int, y as int);
            assert(y * width <= y * width + x);
        }
        let here: usize = y * width + x;
        let ghost before = cells;
        let ghost seen_before = seen@;
        proof {
            assert(here == cell(width as int, x as int, y as int));
        }
        if seen[here] {
            proof {
                assert(cells.contains(here as int));
                let k = choose|k: int| 0 <= k < cells.len() && cells[k] == here;
                assert(locates(xs, ys, axis_x@, axis_y@, cells, k));
                let (x2, y2) = choose|x2: int, y2: int|
                    0 <= x2 < axis_x@.len() && 0 <= y2 < axis_y@.len() && cells[k]
                        == #[trigger] cell(axis_x@.len() as int, x2, y2) && axis_x@[x2] == xs[k]
                        && axis_y@[y2] == ys[k];
                lemma_cell_injective(width as int, x2, y2, x as int, y as int);
                assert(same_point(xs, ys, k, i as int));
            }
            return None;
        }
        seen.set(here, true);
        proof {
            cells = cells.push(here as int);
            assert(cells[i as int] == cell(axis_x@.len() as int, x as int, y as int));
            assert(locates(xs, ys, axis_x@, axis_y@, cells, i as int));
            assert forall|k: int| 0 <= k < i + 1 implies #[trigger] locates(
                xs,
                ys,
                axis_x@,
                axis_y@,
                cells,
                k,
            ) by {
                if k < i {
                    assert(locates(xs, ys, axis_x@, axis_y@, before, k));
                    assert(cells[k] == before[k]);
                }
            }
            assert forall|k: int| 0 <= k < i + 1 implies 0 <= #[trigger] cells[k] < n
                && seen@[cells[k]] by {
                if k < i {
                    assert(cells[k] == before[k]);
                }
            }
            assert forall|c: int| 0 <= c < n && #[trigger] seen@[c] implies cells.contains(c) by {
                if c == here {
                    assert(cells[i as int] == c);
                } else {
                    assert(seen_before[c]);
                    let k = choose|k: int| 0 <= k < before.len() && before[k] == c;
                    assert(cells[k] == c);
                }
            }
            assert(cells.no_duplicates()) by {
                assert forall|a: int, b: int|
                    0 <= a < cells.len() && 0 <= b < cells.len() && a != b implies cells[a]
                    != cells[b] by {
                    if a < i {
                        assert(cells[a] == before[a]);
                        assert(seen_before[before[a]]);
                    }
                    if b < i {
                        assert(cells[b] == before[b]);
                        assert(seen_before[before[b]]);
                    }
                }
            }
        }
        i += 1;
    }
    proof {
        lemma_cells_fill(xs, ys, axis_x@, axis_y@, cells);
        assert forall|i: int, j: int| 0 <= i < j < n implies !(#[trigger] same_point(
            xs,
            ys,
            i,
            j,
        )) by {
            if same_point(xs, ys, i, j) {
                assert(locates(xs, ys, axis_x@, axis_y@, cells, i));
                assert(locates(xs, ys, axis_x@, axis_y@, cells, j));
                let (x1, y1) = choose|x1: int, y1: int|
                    0 <= x1 < axis_x@.len() && 0 <= y1 < axis_y@.len() && cells[i]
                        == #[trigger] cell(axis_x@.len() as int, x1, y1) && axis_x@[x1] == xs[i]
                        && axis_y@[y1] == ys[i];
                let (x2, y2) = choose|x2: int, y2: int|
                    0 <= x2 < axis_x@.len() && 0 <= y2 < axis_y@.len() && cells[j]
                        == #[trigger] cell(axis_x@.len() as int, x2, y2) && axis_x@[x2] == xs[j]
                        && axis_y@[y2] == ys[j];
                assert(axis_x@[x1].total_rank() == axis_x@[x2].total_rank());
                assert(axis_y@[y1].total_rank() == axis_y@[y2].total_rank());
                assert(x1 == x2);
                assert(y1 == y2);
                assert(cells[i] == cells[j]);
            }
        }
        assert forall|i: int, j: int| 0 <= i < n && 0 <= j < n implies #[trigger] crossing_exists(
            xs,
            ys,
            i,
            j,
        ) by {
            assert(xs.contains(xs[i]));
            assert(ys.contains(ys[j]));
            assert(axis_x@.contains(xs[i]));
            assert(axis_y@.contains(ys[j]));
            let x = choose|x: int| 0 <= x < axis_x@.len() && axis_x@[x] == xs[i];
            let y = choose|y: int| 0 <= y < axis_y@.len() && axis_y@[y] == ys[j];
            lemma_cell_bounds(width as int, height as int, x, y);
            let c = cell(width as int, x, y);
            assert(cells.contains(c));
            let k = choose|k: int| 0 <= k < cells.len() && cells[k] == c;
            assert(locates(xs, ys, axis_x@, axis_y@, cells, k));
            let (x2, y2) = choose|x2: int, y2: int|
                0 <= x2 < axis_x@.len() && 0 <= y2 < axis_y@.len() && cells[k] == #[trigger] cell(
                    axis_x@.len() as int,
                    x2,
                    y2,
                ) && axis_x@[x2] == xs[k] && axis_y@[y2] == ys[k];
            lemma_cell_injective(width as int, x, y, x2, y2);
            assert(xs[k] == xs[i] && ys[k] == ys[j]);
        }
    }
    Some(
        GridStructure {
            dims: (width, height),
            eps_prime_values: axis_x,
            eps_double_prime_values: axis_y,
        },
    )
}

/// Points form a grid exactly where there are some, all are finite, no two are the same,
/// and wherever a column and a row of them cross there is one.
pub proof fn grids_have_a_point_at_every_crossing(
    xs: Seq<Scalar>,
    ys: Seq<Scalar>,
    i: int,
    j: int,
)
    requires
        forms_grid(xs, ys),
        0 <= i < xs.len(),
        0 <= j < xs.len(),
    ensures
        xs.len() == ys.len(),
        xs[i].finite() && ys[i].finite(),
        i != j ==> xs[i] != xs[j] || ys[i] != ys[j],
        exists|k: int| 0 <= k < xs.len() && #[trigger] xs[k] == xs[i] && ys[k] == ys[j],
{
    assert(crossing_exists(xs, ys, i, j));
    if i < j {
        assert(!same_point(xs, ys, i, j));
    } else if j < i {
        assert(!same_point(xs, ys, j, i));
    }
}

/// Finite points that are all different and have one at every crossing form a grid. `at` is
/// the point where the column of one and the row of another cross.
pub proof fn full_crossings_form_a_grid(
    xs: Seq<Scalar>,
    ys: Seq<Scalar>,
    at: spec_fn(int, int) -> int,
)
    requires
        xs.len() == ys.len(),
        xs.len() > 0,
        forall|i: int|
            0 <= i < xs.len() ==> (#[trigger] xs[i]).finite() && ys[i].finite(),
        forall|i: int, j: int|
            0 <= i < j < xs.len() ==> #[trigger] xs[i] != #[trigger] xs[j] || ys[i] != ys[j],
        forall|i: int, j: int|
            0 <= i < xs.len() && 0 <= j < xs.len() ==> 0 <= #[trigger] at(i, j) < xs.len()
                && xs[at(i, j)] == xs[i] && ys[at(i, j)] == ys[j],
    ensures
        forms_grid(xs, ys),
{
    assert forall|i: int| 0 <= i < ys.len() implies (#[trigger] ys[i]).finite() by {
        assert(xs[i].finite());
    }
    assert forall|i: int, j: int| 0 <= i < j < xs.len() implies !(#[trigger] same_point(
        xs,
        ys,
        i,
        j,
    )) by {
        assert(xs[i] != xs[j] || ys[i] != ys[j]);
    }
    assert forall|i: int, j: int| 0 <= i < xs.len() && 0 <= j < xs.len() implies #[trigger]
        crossing_exists(xs, ys, i, j) by {
        assert(xs[at(i, j)] == xs[i] && ys[at(i, j)] == ys[j]);
    }
}

} // verus!

//! Classification maps: samples laid out over the grid that they form.

use crate::base::grid::{cell, detect_grid_structure, forms_grid, is_axis_of, same_point};
use crate::base::metrics::{count_set, ClassificationResult};
use crate::data::generation::PermittivitySample;
use crate::scalar::Scalar;
use crate::sort::{find_in_axis, strictly_in_order};
use vstd::prelude::*;

verus! {

/// The items at some indices.
pub open spec fn picks<T>(subset: Seq<usize>, items: Seq<T>) -> Seq<T> {
    subset.map_values(|k: usize| items[k as int])
}

/// Every index is within a list of that length.
pub open spec fn within(subset: Seq<usize>, len: int) -> bool {
    forall|i: int| 0 <= i < subset.len() ==> #[trigger] subset[i] < len
}

/// A grid has a row per value of the second axis and a column per value of the
/// first, and at the point `(xs[i], ys[i])` stands `values[i]`.
pub open spec fn at_points<T>(
    grid: Seq<Vec<T>>,
    axis_x: Seq<Scalar>,
    axis_y: Seq<Scalar>,
    xs: Seq<Scalar>,
    ys: Seq<Scalar>,
    values: Seq<T>,
) -> bool {
    &&& grid.len() == axis_y.len()
    &&& forall|y: int| 0 <= y < grid.len() ==> (#[trigger] grid[y])@.len() == axis_x.len()
    &&& forall|i: int, x: int, y: int|
        0 <= i < xs.len() && 0 <= x < axis_x.len() && 0 <= y < axis_y.len() && #[trigger] xs[i]
            == #[trigger] axis_x[x] && ys[i] == #[trigger] axis_y[y] ==> grid[y]@[x] == values[i]
}

/// One threshold's classification over a grid.
#[derive(Debug)]
pub struct MaskChart {
    pub threshold: Scalar,
    /// How many samples of the grid are within the threshold.
    pub ok_count: usize,
    /// How many samples the grid has.
    pub total: usize,
    pub grid_mask: Vec<Vec<bool>>,
}

/// Errors, scattering parameters and classifications over a grid.
#[derive(Debug)]
pub struct GridChart {
    pub eps_prime: Vec<Scalar>,
    pub eps_double_prime: Vec<Scalar>,
    pub nx: usize,
    pub ny: usize,
    pub error_grid: Vec<Vec<Scalar>>,
    pub s11_real: Vec<Vec<Scalar>>,
    pub s11_imag: Vec<Vec<Scalar>>,
    pub s21_real: Vec<Vec<Scalar>>,
    pub s21_imag: Vec<Vec<Scalar>>,
    pub classifications: Vec<MaskChart>,
}

/// The first coordinates of samples.
pub open spec fn eps_primes(samples: Seq<PermittivitySample>) -> Seq<Scalar> {
    samples.map_values(|s: PermittivitySample| s.eps_prime)
}

/// The second coordinates of samples.
pub open spec fn eps_double_primes(samples: Seq<PermittivitySample>) -> Seq<Scalar> {
    samples.map_values(|s: PermittivitySample| s.eps_double_prime)
}

impl MaskChart {
    /// The classification of the chosen samples, laid out over the axes.
    pub open spec fn is_mask_of(
        &self,
        classification: ClassificationResult,
        subset: Seq<usize>,
        axis_x: Seq<Scalar>,
        axis_y: Seq<Scalar>,
        xs: Seq<Scalar>,
        ys: Seq<Scalar>,
    ) -> bool {
        let chosen = picks(subset, classification.ok_mask@);
        &&& self.threshold == classification.threshold
        &&& self.ok_count == count_set(chosen)
        &&& self.total == subset.len()
        &&& at_points(self.grid_mask@, axis_x, axis_y, xs, ys, chosen)
    }
}

impl GridChart {
    /// The chart of the chosen samples.
    pub open spec fn is_chart_of(
        &self,
        subset: Seq<usize>,
        samples: Seq<PermittivitySample>,
        errors: Seq<Scalar>,
        classifications: Seq<ClassificationResult>,
    ) -> bool {
        let chosen = picks(subset, samples);
        let xs = eps_primes(chosen);
        let ys = eps_double_primes(chosen);
        let ax = self.eps_prime@;
        let ay = self.eps_double_prime@;
        &&& is_axis_of(ax, xs)
        &&& is_axis_of(ay, ys)
        &&& self.nx == ax.len()
        &&& self.ny == ay.len()
        &&& at_points(self.error_grid@, ax, ay, xs, ys, picks(subset, errors))
        &&& at_points(
            self.s11_real@,
            ax,
            ay,
            xs,
            ys,
            chosen.map_values(|s: PermittivitySample| s.s11_real),
        )
        &&& at_points(
            self.s11_imag@,
            ax,
            ay,
            xs,
            ys,
            chosen.map_values(|s: PermittivitySample| s.s11_imag),
        )
        &&& at_points(
            self.s21_real@,
            ax,
            ay,
            xs,
            ys,
            chosen.map_values(|s: PermittivitySample| s.s21_real),
        )
        &&& at_points(
            self.s21_imag@,
            ax,
            ay,
            xs,
            ys,
            chosen.map_values(|s: PermittivitySample| s.s21_imag),
        )
        &&& self.classifications@.len() == classifications.len()
        &&& forall|c: int|
            0 <= c < classifications.len() ==> (#[trigger] self.classifications@[c]).is_mask_of(
                classifications[c],
                subset,
                ax,
                ay,
                xs,
                ys,
            )
    }
}

/// Different places of a grid: no two items have the same column and row.
spec fn distinct_places(columns: Seq<usize>, rows: Seq<usize>) -> bool {
    forall|i: int, j: int|
        0 <= i < j < columns.len() ==> !(#[trigger] columns[i] == #[trigger] columns[j] && rows[i]
            == rows[j])
}

/// The place of each point in the axes.
spec fn places(
    columns: Seq<usize>,
    rows: Seq<usize>,
    axis_x: Seq<Scalar>,
    axis_y: Seq<Scalar>,
    xs: Seq<Scalar>,
    ys: Seq<Scalar>,
) -> bool {
    &&& columns.len() == xs.len()
    &&& rows.len() == xs.len()
    &&& forall|i: int|
        0 <= i < xs.len() ==> #[trigger] columns[i] < axis_x.len() && axis_x[columns[i] as int]
            == xs[i]
    &&& forall|i: int|
        0 <= i < xs.len() ==> #[trigger] rows[i] < axis_y.len() && axis_y[rows[i] as int] == ys[i]
}

proof fn lemma_cells_differ(width: int, x1: int, y1: int, x2: int, y2: int)
    requires
        0 <= x1 < width,
        0 <= x2 < width,
        x1 != x2 || y1 != y2,
    ensures
        cell(width, x1, y1) != cell(width, x2, y2),
{
    if y1 * width + x1 == y2 * width + x2 {
        assert(y1 == y2) by (nonlinear_arith)
            requires
                0 <= x1 < width,
                0 <= x2 < width,
                y1 * width + x1 == y2 * width + x2,
        ;
    }
}

proof fn lemma_cell_inside(width: int, height: int, x: int, y: int)
    requires
        0 <= x < width,
        0 <= y < height,
    ensures
        0 <= y * width,
        0 <= cell(width, x, y) < width * height,
{
    assert(0 <= y * width && y * width + x < width * height) by (nonlinear_arith)
        requires
            0 <= x < width,
            0 <= y < height,
    ;
}

/// Puts each value in its place.
fn laid_out<T: Copy>(
    columns: &Vec<usize>,
    rows: &Vec<usize>,
    values: &Vec<T>,
    filler: T,
    width: usize,
    height: usize,
) -> (result: Vec<Vec<T>>)
    requires
        columns@.len() == values@.len(),
        rows@.len() == values@.len(),
        width * height <= usize::MAX,
        forall|i: int| 0 <= i < values@.len() ==> #[trigger] columns@[i] < width,
        forall|i: int| 0 <= i < values@.len() ==> #[trigger] rows@[i] < height,
        distinct_places(columns@, rows@),
    ensures
        result@.len() == height,
        forall|y: int| 0 <= y < height ==> (#[trigger] result@[y])@.len() == width,
        forall|i: int|
            0 <= i < values@.len() ==> result@[rows@[i] as int]@[columns@[i] as int]
                == #[trigger] values@[i],
{
    let size: usize = width * height;
    let mut flat: Vec<T> = Vec::new();
    let mut filled: usize = 0;
    while filled < size
        invariant
            filled <= size,
            flat@.len() == filled,
        decreases size - filled,
    {
        flat.push(filler);
        filled += 1;
    }
    let mut i: usize = 0;
    while i < values.len()
        invariant
            i <= values@.len(),
            columns@.len() == values@.len(),
            rows@.len() == values@.len(),
            size == width * height,
            flat@.len() == size,
            forall|k: int| 0 <= k < values@.len() ==> #[trigger] columns@[k] < width,
            forall|k: int| 0 <= k < values@.len() ==> #[trigger] rows@[k] < height,
            distinct_places(columns@, rows@),
            forall|k: int|
                0 <= k < i ==> flat@[cell(width as int, columns@[k] as int, rows@[k] as int)]
                    == #[trigger] values@[k],
        decreases values@.len() - i,
    {
        let x: usize = columns[i];
        let y: usize = rows[i];
        proof {
            lemma_cell_inside(width as int, height as int, x as int, y as int);
        }
        let place: usize = y * width + x;
        let ghost before = flat@;
        flat.set(place, values[i]);
        proof {
            assert forall|k: int| 0 <= k < i + 1 implies flat@[cell(
                width as int,
                columns@[k] as int,
                rows@[k] as int,
            )] == #[trigger] values@[k] by {
                if k < i {
                    assert(!(columns@[k] == columns@[i as int] && rows@[k] == rows@[i as int]));
                    lemma_cells_differ(
                        width as int,
                        columns@[k] as int,
                        rows@[k] as int,
                        x as int,
                        y as int,
                    );
                    lemma_cell_inside(
                        width as int,
                        height as int,
                        columns@[k] as int,
                        rows@[k] as int,
                    );
                    assert(before[cell(width as int, columns@[k] as int, rows@[k] as int)]
                        == values@[k]);
                }
            }
        }
        i += 1;
    }
    let result = cut_rows(&flat, width, height);
    proof {
        assert forall|k: int| 0 <= k < values@.len() implies result@[rows@[k] as int]@[columns@[k] as int]
            == #[trigger] values@[k] by {
            assert(flat@[cell(width as int, columns@[k] as int, rows@[k] as int)] == values@[k]);
            assert(columns@[k] < width && rows@[k] < height);
        }
    }
    result
}

/// Cuts row-major values into rows.
fn cut_rows<T: Copy>(flat: &Vec<T>, width: usize, height: usize) -> (result: Vec<Vec<T>>)
    requires
        flat@.len() == width * height,
    ensures
        result@.len() == height,
        forall|y: int| 0 <= y < height ==> (#[trigger] result@[y])@.len() == width,
        forall|x: int, y: int|
            0 <= x < width && 0 <= y < height ==> result@[y]@[x] == flat@[#[trigger] cell(
                width as int,
                x,
                y,
            )],
{
    let held: usize = flat.len();
    let mut result: Vec<Vec<T>> = Vec::new();
    let mut y: usize = 0;
    while y < height
        invariant
            y <= height,
            held == flat@.len(),
            flat@.len() == width * height,
            result@.len() == y,
            forall|b: int| 0 <= b < y ==> (#[trigger] result@[b])@.len() == width,
            forall|a: int, b: int|
                0 <= a < width && 0 <= b < y ==> result@[b]@[a] == flat@[#[trigger] cell(
                    width as int,
                    a,
                    b,
                )],
        decreases height - y,
    {
        let mut row: Vec<T> = Vec::new();
        let mut x: usize = 0;
        while x < width
            invariant
                x <= width,
                y < height,
                held == flat@.len(),
                flat@.len() == width * height,
                row@.len() == x,
                forall|a: int| 0 <= a < x ==> #[trigger] row@[a] == flat@[cell(width as int, a, y as int)],
            decreases width - x,
        {
            proof {
                lemma_cell_inside(width as int, height as int, x as int, y as int);
            }
            row.push(flat[y * width + x]);
            x += 1;
        }
        let ghost before = result@;
        result.push(row);
        proof {
            assert forall|a: int, b: int| 0 <= a < width && 0 <= b < y + 1 implies result@[b]@[a]
                == flat@[#[trigger] cell(width as int, a, b)] by {
                if b < y {
                    assert(before[b]@[a] == flat@[cell(width as int, a, b)]);
                } else {
                    assert(row@[a] == flat@[cell(width as int, a, y as int)]);
                }
            }
        }
        y += 1;
    }
    result
}

proof fn lemma_axis_holds_once(axis: Seq<Scalar>, a: int, b: int)
    requires
        strictly_in_order(axis),
        0 <= a < axis.len(),
        0 <= b < axis.len(),
        axis[a] == axis[b],
    ensures
        a == b,
{
    if a < b {
        lemma_axis_ascends(axis, a, b);
    } else if b < a {
        lemma_axis_ascends(axis, b, a);
    }
}

proof fn lemma_axis_ascends(axis: Seq<Scalar>, a: int, b: int)
    requires
        strictly_in_order(axis),
        0 <= a < b < axis.len(),
    ensures
        axis[a].total_rank() < axis[b].total_rank(),
{
}

/// Lays out values over the axes of a grid.
fn over_axes<T: Copy>(
    columns: &Vec<usize>,
    rows: &Vec<usize>,
    values: &Vec<T>,
    filler: T,
    axis_x: &Vec<Scalar>,
    axis_y: &Vec<Scalar>,
    xs: &Vec<Scalar>,
    ys: &Vec<Scalar>,
) -> (result: Vec<Vec<T>>)
    requires
        xs@.len() == values@.len(),
        strictly_in_order(axis_x@),
        strictly_in_order(axis_y@),
        axis_x@.len() * axis_y@.len() <= usize::MAX,
        places(columns@, rows@, axis_x@, axis_y@, xs@, ys@),
        distinct_places(columns@, rows@),
    ensures
        at_points(result@, axis_x@, axis_y@, xs@, ys@, values@),
{
    let result = laid_out(columns, rows, values, filler, axis_x.len(), axis_y.len());
    proof {
        assert forall|i: int, x: int, y: int|
            0 <= i < xs@.len() && 0 <= x < axis_x@.len() && 0 <= y < axis_y@.len() && #[trigger] xs@[i]
                == #[trigger] axis_x@[x] && ys@[i] == #[trigger] axis_y@[y] implies result@[y]@[x]
            == values@[i] by {
            let a = columns@[i] as int;
            let b = rows@[i] as int;
            assert(axis_x@[a] == axis_x@[x]);
            assert(axis_y@[b] == axis_y@[y]);
            lemma_axis_holds_once(axis_x@, a, x);
            lemma_axis_holds_once(axis_y@, b, y);
            assert(result@[b]@[a] == values@[i]);
        }
    }
    result
}

/// The place of each value in an axis that lists them all.
fn find_all(axis: &Vec<Scalar>, values: &Vec<Scalar>) -> (result: Vec<usize>)
    requires
        is_axis_of(axis@, values@),
    ensures
        result@.len() == values@.len(),
        forall|i: int|
            0 <= i < values@.len() ==> #[trigger] result@[i] < axis@.len() && axis@[result@[i] as int]
                == values@[i],
{
    let mut result: Vec<usize> = Vec::new();
    let mut i: usize = 0;
    while i < values.len()
        invariant
            i <= values@.len(),
            is_axis_of(axis@, values@),
            result@.len() == i,
            forall|k: int|
                0 <= k < i ==> #[trigger] result@[k] < axis@.len() && axis@[result@[k] as int]
                    == values@[k],
        decreases values@.len() - i,
    {
        let place: usize = match find_in_axis(axis.as_slice(), values[i]) {
            Some(place) => place,
            None => {
                proof {
                    assert(values@.contains(values@[i as int]));
                    assert(axis@.contains(values@[i as int]));
                }
                0
            },
        };
        result.push(place);
        i += 1;
    }
    result
}

/// The items at some indices.
fn pick<T: Copy>(subset: &Vec<usize>, items: &[T]) -> (result: Vec<T>)
    requires
        within(subset@, items@.len() as int),
    ensures
        result@ == picks(subset@, items@),
{
    let mut result: Vec<T> = Vec::new();
    let mut i: usize = 0;
    while i < subset.len()
        invariant
            i <= subset@.len(),
            within(subset@, items@.len() as int),
            result@ == picks(subset@, items@).take(i as int),
        decreases subset@.len() - i,
    {
        assert(subset@[i as int] < items@.len());
        result.push(items[subset[i]]);
        proof {
            assert(picks(subset@, items@).take(i + 1) == picks(subset@, items@).take(i as int).push(
                items@[subset@[i as int] as int],
            ));
        }
        i += 1;
    }
    proof {
        assert(picks(subset@, items@).take(subset@.len() as int) == picks(subset@, items@));
    }
    result
}

/// The columns of chosen samples.
struct SampleColumns {
    eps_prime: Vec<Scalar>,
    eps_double_prime: Vec<Scalar>,
    s11_real: Vec<Scalar>,
    s11_imag: Vec<Scalar>,
    s21_real: Vec<Scalar>,
    s21_imag: Vec<Scalar>,
}

fn columns_of(samples: &Vec<PermittivitySample>) -> (result: SampleColumns)
    ensures
        result.eps_prime@ == eps_primes(samples@),
        result.eps_double_prime@ == eps_double_primes(samples@),
        result.s11_real@ == samples@.map_values(|s: PermittivitySample| s.s11_real),
        result.s11_imag@ == samples@.map_values(|s: PermittivitySample| s.s11_imag),
        result.s21_real@ == samples@.map_values(|s: PermittivitySample| s.s21_real),
        result.s21_imag@ == samples@.map_values(|s: PermittivitySample| s.s21_imag),
{
    let mut eps_prime: Vec<Scalar> = Vec::new();
    let mut eps_double_prime: Vec<Scalar> = Vec::new();
    let mut s11_real: Vec<Scalar> = Vec::new();
    let mut s11_imag: Vec<Scalar> = Vec::new();
    let mut s21_real: Vec<Scalar> = Vec::new();
    let mut s21_imag: Vec<Scalar> = Vec::new();
    let mut i: usize = 0;
    while i < samples.len()
        invariant
            i <= samples@.len(),
            eps_prime@ == eps_primes(samples@.take(i as int)),
            eps_double_prime@ == eps_double_primes(samples@.take(i as int)),
            s11_real@ == samples@.take(i as int).map_values(|s: PermittivitySample| s.s11_real),
            s11_imag@ == samples@.take(i as int).map_values(|s: PermittivitySample| s.s11_imag),
            s21_real@ == samples@.take(i as int).map_values(|s: PermittivitySample| s.s21_real),
            s21_imag@ == samples@.take(i as int).map_values(|s: PermittivitySample| s.s21_imag),
        decreases samples@.len() - i,
    {
        let sample = samples[i];
        proof {
            assert(samples@.take(i + 1) == samples@.take(i as int).push(sample));
        }
        eps_prime.push(sample.eps_prime);
        eps_double_prime.push(sample.eps_double_prime);
        s11_real.push(sample.s11_real);
        s11_imag.push(sample.s11_imag);
        s21_real.push(sample.s21_real);
        s21_imag.push(sample.s21_imag);
        i += 1;
    }
    proof {
        assert(samples@.take(samples@.len() as int) == samples@);
    }
    SampleColumns { eps_prime, eps_double_prime, s11_real, s11_imag, s21_real, s21_imag }
}

/// How many flags are set.
fn count_true(mask: &Vec<bool>) -> (result: usize)
    ensures
        result == count_set(mask@),
{
    let held: usize = mask.len();
    let mut count: usize = 0;
    let mut i: usize = 0;
    proof {
        assert(mask@.take(0) == Seq::<bool>::empty());
    }
    while i < mask.len()
        invariant
            i <= mask@.len(),
            held == mask@.len(),
            count <= i,
            count == count_set(mask@.take(i as int)),
        decreases mask@.len() - i,
    {
        proof {
            assert(mask@.take(i + 1).drop_last() == mask@.take(i as int));
        }
        if mask[i] {
            count += 1;
        }
        i += 1;
    }
    proof {
        assert(mask@.take(mask@.len() as int) == mask@);
    }
    count
}

/// The chart of the chosen samples; `None` where none is chosen or the chosen ones
/// do not form a complete grid. Counts are taken over the chosen samples alone.
pub fn build_grid_chart(
    subset: &Vec<usize>,
    samples: &[PermittivitySample],
    errors: &[Scalar],
    classifications: &Vec<ClassificationResult>,
) -> (result: Option<GridChart>)
    requires
        within(subset@, samples@.len() as int),
        within(subset@, errors@.len() as int),
        forall|c: int|
            0 <= c < classifications@.len() ==> within(
                subset@,
                (#[trigger] classifications@[c]).ok_mask@.len() as int,
            ),
    ensures
        result is Some <==> subset@.len() > 0 && forms_grid(
            eps_primes(picks(subset@, samples@)),
            eps_double_primes(picks(subset@, samples@)),
        ),
        result matches Some(chart) ==> chart.is_chart_of(
            subset@,
            samples@,
            errors@,
            classifications@,
        ),
{
    if subset.len() == 0 {
        return None;
    }
    let chosen = pick(subset, samples);
    let columns = columns_of(&chosen);
    let grid = match detect_grid_structure(
        columns.eps_prime.as_slice(),
        columns.eps_double_prime.as_slice(),
    ) {
        Some(grid) => grid,
        None => return None,
    };
    let ax = grid.eps_prime_values;
    let ay = grid.eps_double_prime_values;
    let xi = find_all(&ax, &columns.eps_prime);
    let yi = find_all(&ay, &columns.eps_double_prime);
    let ghost xs = columns.eps_prime@;
    let ghost ys = columns.eps_double_prime@;
    proof {
        assert(places(xi@, yi@, ax@, ay@, xs, ys));
        assert forall|i: int, j: int| 0 <= i < j < xi@.len() implies !(#[trigger] xi@[i]
            == #[trigger] xi@[j] && yi@[i] == yi@[j]) by {
            if xi@[i] == xi@[j] && yi@[i] == yi@[j] {
                assert(yi@[i] < ay@.len() && yi@[j] < ay@.len());
                assert(same_point(xs, ys, i, j));
            }
        }
        assert(distinct_places(xi@, yi@));
    }
    let chosen_errors = pick(subset, errors);
    let zero = Scalar::zero();
    let error_grid = over_axes(
        &xi,
        &yi,
        &chosen_errors,
        zero,
        &ax,
        &ay,
        &columns.eps_prime,
        &columns.eps_double_prime,
    );
    let s11_real = over_axes(
        &xi,
        &yi,
        &columns.s11_real,
        zero,
        &ax,
        &ay,
        &columns.eps_prime,
        &columns.eps_double_prime,
    );
    let s11_imag = over_axes(
        &xi,
        &yi,
        &columns.s11_imag,
        zero,
        &ax,
        &ay,
        &columns.eps_prime,
        &columns.eps_double_prime,
    );
    let s21_real = over_axes(
        &xi,
        &yi,
        &columns.s21_real,
        zero,
        &ax,
        &ay,
        &columns.eps_prime,
        &columns.eps_double_prime,
    );
    let s21_imag = over_axes(
        &xi,
        &yi,
        &columns.s21_imag,
        zero,
        &ax,
        &ay,
        &columns.eps_prime,
        &columns.eps_double_prime,
    );
    let mut masks: Vec<MaskChart> = Vec::new();
    let mut c: usize = 0;
    while c < classifications.len()
        invariant
            c <= classifications@.len(),
            xs == columns.eps_prime@,
            ys == columns.eps_double_prime@,
            xs.len() == subset@.len(),
            strictly_in_order(ax@),
            strictly_in_order(ay@),
            ax@.len() * ay@.len() <= usize::MAX,
            places(xi@, yi@, ax@, ay@, xs, ys),
            distinct_places(xi@, yi@),
            forall|k: int|
                0 <= k < classifications@.len() ==> within(
                    subset@,
                    (#[trigger] classifications@[k]).ok_mask@.len() as int,
                ),
            masks@.len() == c,
            forall|k: int|
                0 <= k < c ==> (#[trigger] masks@[k]).is_mask_of(
                    classifications@[k],
                    subset@,
                    ax@,
                    ay@,
                    xs,
                    ys,
                ),
        decreases classifications@.len() - c,
    {
        let classification = &classifications[c];
        let flags = pick(subset, classification.ok_mask.as_slice());
        let grid_mask = over_axes(
            &xi,
            &yi,
            &flags,
            false,
            &ax,
            &ay,
            &columns.eps_prime,
            &columns.eps_double_prime,
        );
        masks.push(
            MaskChart {
                threshold: classification.threshold,
                ok_count: count_true(&flags),
                total: subset.len(),
                grid_mask,
            },
        );
        c += 1;
    }
    let nx: usize = ax.len();
    let ny: usize = ay.len();
    Some(
        GridChart {
            eps_prime: ax,
            eps_double_prime: ay,
            nx,
            ny,
            error_grid,
            s11_real,
            s11_imag,
            s21_real,
            s21_imag,
            classifications: masks,
        },
    )
}

/// Every cell of a chart's grid belongs to exactly one chosen sample: the values
/// are all accounted for, and none is overwritten.
pub proof fn cells_belong_to_one_sample(
    axis_x: Seq<Scalar>,
    axis_y: Seq<Scalar>,
    xs: Seq<Scalar>,
    ys: Seq<Scalar>,
    x: int,
    y: int,
)
    requires
        forms_grid(xs, ys),
        is_axis_of(axis_x, xs),
        is_axis_of(axis_y, ys),
        0 <= x < axis_x.len(),
        0 <= y < axis_y.len(),
    ensures
        exists|i: int| 0 <= i < xs.len() && #[trigger] xs[i] == axis_x[x] && ys[i] == axis_y[y],
        forall|i: int, j: int|
            0 <= i < xs.len() && 0 <= j < xs.len() && #[trigger] xs[i] == axis_x[x] && ys[i]
                == axis_y[y] && #[trigger] xs[j] == axis_x[x] && ys[j] == axis_y[y] ==> i == j,
{
    assert(axis_x.contains(axis_x[x]));
    assert(axis_y.contains(axis_y[y]));
    let a = choose|a: int| 0 <= a < xs.len() && xs[a] == axis_x[x];
    let b = choose|b: int| 0 <= b < ys.len() && ys[b] == axis_y[y];
    assert(crate::base::grid::crossing_exists(xs, ys, a, b));
    assert forall|i: int, j: int|
        0 <= i < xs.len() && 0 <= j < xs.len() && #[trigger] xs[i] == axis_x[x] && ys[i]
            == axis_y[y] && #[trigger] xs[j] == axis_x[x] && ys[j] == axis_y[y] implies i == j by {
        if i < j {
            assert(same_point(xs, ys, i, j));
        } else if j < i {
            assert(same_point(xs, ys, j, i));
        }
    }
}

/// A map shows every sample at its own point: in the cell of its coordinates stand its
/// error, its scattering parameters and whether each classification found it good. The
/// counts of a classification are over the samples of the map.
pub proof fn maps_show_samples_at_their_points(
    chart: GridChart,
    subset: Seq<usize>,
    samples: Seq<PermittivitySample>,
    errors: Seq<Scalar>,
    classifications: Seq<ClassificationResult>,
    i: int,
    x: int,
    y: int,
    c: int,
)
    requires
        chart.is_chart_of(subset, samples, errors, classifications),
        0 <= i < subset.len(),
        0 <= x < chart.eps_prime@.len(),
        0 <= y < chart.eps_double_prime@.len(),
        chart.eps_prime@[x] == samples[subset[i] as int].eps_prime,
        chart.eps_double_prime@[y] == samples[subset[i] as int].eps_double_prime,
        0 <= c < classifications.len(),
    ensures
        ({
            let k = subset[i] as int;
            &&& chart.error_grid@[y]@[x] == errors[k]
            &&& chart.s11_real@[y]@[x] == samples[k].s11_real
            &&& chart.s11_imag@[y]@[x] == samples[k].s11_imag
            &&& chart.s21_real@[y]@[x] == samples[k].s21_real
            &&& chart.s21_imag@[y]@[x] == samples[k].s21_imag
            &&& chart.nx == chart.eps_prime@.len()
            &&& chart.ny == chart.eps_double_prime@.len()
            &&& chart.classifications@.len() == classifications.len()
            &&& chart.classifications@[c].threshold == classifications[c].threshold
            &&& chart.classifications@[c].total == subset.len()
            &&& chart.classifications@[c].ok_count == count_set(
                subset.map_values(|k: usize| classifications[c].ok_mask@[k as int]),
            )
            &&& chart.classifications@[c].grid_mask@[y]@[x] == classifications[c].ok_mask@[k]
        }),
{
    let chosen = picks(subset, samples);
    let xs = eps_primes(chosen);
    let ys = eps_double_primes(chosen);
    assert(chosen[i] == samples[subset[i] as int]);
    assert(xs[i] == chart.eps_prime@[x]);
    assert(ys[i] == chart.eps_double_prime@[y]);
    assert(chart.classifications@[c].is_mask_of(
        classifications[c],
        subset,
        chart.eps_prime@,
        chart.eps_double_prime@,
        xs,
        ys,
    ));
    assert(picks(subset, classifications[c].ok_mask@) =~= subset.map_values(
        |k: usize| classifications[c].ok_mask@[k as int],
    ));
    assert(picks(subset, errors)[i] == errors[subset[i] as int]);
    assert(picks(subset, classifications[c].ok_mask@)[i]
        == classifications[c].ok_mask@[subset[i] as int]);
}

/// The axes of a map are the coordinates of its samples, each once and in ascending order.
pub proof fn maps_have_the_samples_axes(
    chart: GridChart,
    subset: Seq<usize>,
    samples: Seq<PermittivitySample>,
    errors: Seq<Scalar>,
    classifications: Seq<ClassificationResult>,
    v: Scalar,
)
    requires
        chart.is_chart_of(subset, samples, errors, classifications),
    ensures
        chart.eps_prime@.contains(v) <==> exists|i: int|
            0 <= i < subset.len() && samples[#[trigger] subset[i] as int].eps_prime == v,
        chart.eps_double_prime@.contains(v) <==> exists|i: int|
            0 <= i < subset.len() && samples[#[trigger] subset[i] as int].eps_double_prime == v,
        forall|a: int, b: int|
            0 <= a < b < chart.eps_prime@.len() ==> (#[trigger] chart.eps_prime@[a]).total_rank()
                < (#[trigger] chart.eps_prime@[b]).total_rank(),
        forall|a: int, b: int|
            0 <= a < b < chart.eps_double_prime@.len() ==> (
            #[trigger] chart.eps_double_prime@[a]).total_rank() < (
            #[trigger] chart.eps_double_prime@[b]).total_rank(),
{
    let chosen = picks(subset, samples);
    let xs = eps_primes(chosen);
    let ys = eps_double_primes(chosen);
    assert(is_axis_of(chart.eps_prime@, xs));
    assert(is_axis_of(chart.eps_double_prime@, ys));
    assert forall|i: int| 0 <= i < subset.len() implies xs[i] == samples[
        #[trigger] subset[i] as int
    ].eps_prime && ys[i] == samples[subset[i] as int].eps_double_prime by {
        assert(chosen[i] == samples[subset[i] as int]);
    }
    if xs.contains(v) {
        let i = choose|i: int| 0 <= i < xs.len() && xs[i] == v;
        assert(samples[subset[i] as int].eps_prime == v);
    }
    if exists|i: int| 0 <= i < subset.len() && samples[#[trigger] subset[i] as int].eps_prime
        == v {
        let i = choose|i: int|
            0 <= i < subset.len() && samples[#[trigger] subset[i] as int].eps_prime == v;
        assert(xs[i] == v);
    }
    if ys.contains(v) {
        let i = choose|i: int| 0 <= i < ys.len() && ys[i] == v;
        assert(samples[subset[i] as int].eps_double_prime == v);
    }
    if exists|i: int| 0 <= i < subset.len() && samples[
        #[trigger] subset[i] as int
    ].eps_double_prime == v {
        let i = choose|i: int|
            0 <= i < subset.len() && samples[#[trigger] subset[i] as int].eps_double_prime == v;
        assert(ys[i] == v);
    }
}

} // verus!

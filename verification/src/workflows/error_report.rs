//! Reports on the two parts of the permittivity, each by itself.

use super::ensemble::count_within;
use crate::base::metrics::{is_largest, largest};
use crate::scalar::{Scalar, ONE_BITS, TEN_BITS};
use crate::text::{align_left, concat2, concat3, copy_of, left_aligned, views};
use vstd::prelude::*;
use vstd::string::StringExecFns;

verus! {

/// The pattern of 0.1.
pub const TENTH_BITS: u64 = 0x3fb9_9999_9999_999a;

/// The pattern of 0.5.
pub const HALF_BITS: u64 = 0x3fe0_0000_0000_0000;

/// What is counted of a list of errors. Means and deviations are computed from the
/// list itself.
#[derive(Debug)]
pub struct ErrorTally {
    pub count: usize,
    /// The largest error; zero where there is none.
    pub max: Scalar,
    /// How many errors are within each limit.
    pub within: Vec<usize>,
}

impl ErrorTally {
    /// This is the tally of `errors` by `limits`.
    pub open spec fn tallies(&self, errors: Seq<Scalar>, limits: Seq<Scalar>) -> bool {
        &&& self.count == errors.len()
        &&& errors.len() == 0 ==> self.max == (Scalar { bits: 0 })
        &&& errors.len() > 0 ==> is_largest(self.max, errors)
        &&& self.within@.len() == limits.len()
        &&& forall|i: int|
            0 <= i < limits.len() ==> #[trigger] self.within@[i] == count_within(errors, limits[i])
    }
}

fn count_at_most(errors: &[Scalar], limit: Scalar) -> (result: usize)
    ensures
        result == count_within(errors@, limit),
{
    let mut result: usize = 0;
    let mut i: usize = 0;
    proof {
        assert(errors@.take(0) == Seq::<Scalar>::empty());
    }
    while i < errors.len()
        invariant
            i <= errors@.len(),
            result <= i,
            result == count_within(errors@.take(i as int), limit),
        decreases errors@.len() - i,
    {
        proof {
            assert(errors@.take(i + 1).drop_last() == errors@.take(i as int));
            assert(errors@.take(i + 1).last() == errors@[i as int]);
        }
        if errors[i].at_most(limit) {
            result += 1;
        }
        i += 1;
    }
    proof {
        assert(errors@.take(errors@.len() as int) == errors@);
    }
    result
}

fn tally(errors: &[Scalar], limits: &Vec<Scalar>) -> (result: ErrorTally)
    ensures
        result.tallies(errors@, limits@),
{
    let mut within: Vec<usize> = Vec::new();
    let mut i: usize = 0;
    while i < limits.len()
        invariant
            i <= limits@.len(),
            within@.len() == i,
            forall|k: int| 0 <= k < i ==> #[trigger] within@[k] == count_within(errors@, limits@[k]),
        decreases limits@.len() - i,
    {
        within.push(count_at_most(errors, limits[i]));
        i += 1;
    }
    ErrorTally { count: errors.len(), max: largest(errors), within }
}

/// The limits of relative errors in percent.
pub open spec fn relative_limits() -> Seq<Scalar> {
    seq![Scalar { bits: ONE_BITS }, Scalar { bits: TEN_BITS }]
}

/// The limits of absolute errors.
pub open spec fn absolute_limits() -> Seq<Scalar> {
    seq![Scalar { bits: TENTH_BITS }, Scalar { bits: HALF_BITS }, Scalar { bits: ONE_BITS }]
}

/// What is counted of relative errors in percent.
pub fn report_relative_errors(errors: &[Scalar]) -> (result: ErrorTally)
    ensures
        result.tallies(errors@, relative_limits()),
{
    let mut limits: Vec<Scalar> = Vec::new();
    limits.push(Scalar::one());
    limits.push(Scalar::from_bits(TEN_BITS));
    proof {
        assert(limits@ =~= relative_limits());
    }
    tally(errors, &limits)
}

/// What is counted of absolute errors.
pub fn report_absolute_errors(errors: &[Scalar]) -> (result: ErrorTally)
    ensures
        result.tallies(errors@, absolute_limits()),
{
    let mut limits: Vec<Scalar> = Vec::new();
    limits.push(Scalar::from_bits(TENTH_BITS));
    limits.push(Scalar::from_bits(HALF_BITS));
    limits.push(Scalar::one());
    proof {
        assert(limits@ =~= absolute_limits());
    }
    tally(errors, &limits)
}

/// A tally with its numbers written out: the shares are in percent.
#[derive(Debug)]
pub struct TallyTexts {
    pub mean: String,
    pub std: String,
    pub max: String,
    pub shares: Vec<String>,
}

/// The line on relative errors.
pub fn relative_line(name: &str, texts: &TallyTexts) -> (result: String)
    requires
        texts.shares@.len() == 2,
    ensures
        result@ == "  "@ + name@ + ": Mean="@ + texts.mean@ + "%, Std="@ + texts.std@ + "%, Max="@
            + texts.max@ + "%, OK@1%="@ + texts.shares@[0]@ + "%, OK@10%="@ + texts.shares@[1]@
            + "%"@,
{
    let mut line = concat3("  ", name, ": Mean=");
    line.append(texts.mean.as_str());
    line.append("%, Std=");
    line.append(texts.std.as_str());
    line.append("%, Max=");
    line.append(texts.max.as_str());
    line.append("%, OK@1%=");
    line.append(texts.shares[0].as_str());
    line.append("%, OK@10%=");
    line.append(texts.shares[1].as_str());
    line.append("%");
    line
}

/// The line on absolute errors.
pub fn absolute_line(name: &str, texts: &TallyTexts) -> (result: String)
    requires
        texts.shares@.len() == 3,
    ensures
        result@ == "  "@ + name@ + ": Mean="@ + texts.mean@ + ", Std="@ + texts.std@ + ", Max="@
            + texts.max@ + ", OK@0.1="@ + texts.shares@[0]@ + "%, OK@0.5="@ + texts.shares@[1]@
            + "%, OK@1.0="@ + texts.shares@[2]@ + "%"@,
{
    let mut line = concat3("  ", name, ": Mean=");
    line.append(texts.mean.as_str());
    line.append(", Std=");
    line.append(texts.std.as_str());
    line.append(", Max=");
    line.append(texts.max.as_str());
    line.append(", OK@0.1=");
    line.append(texts.shares[0].as_str());
    line.append("%, OK@0.5=");
    line.append(texts.shares[1].as_str());
    line.append("%, OK@1.0=");
    line.append(texts.shares[2].as_str());
    line.append("%");
    line
}

/// The values, among the first `n`, at the places where the truth is above zero.
pub open spec fn at_lossy(truth: Seq<Scalar>, values: Seq<Scalar>, n: nat) -> Seq<Scalar>
    decreases n,
{
    if n == 0 {
        Seq::<Scalar>::empty()
    } else {
        let before = at_lossy(truth, values, (n - 1) as nat);
        if (Scalar { bits: 0 }).lt(truth[n - 1]) {
            before.push(values[n - 1])
        } else {
            before
        }
    }
}

/// The predictions for lossy samples: relative errors make no sense where the loss
/// factor is zero. Where one list is longer, its end is passed over.
pub fn lossy_values(truth: &Vec<Scalar>, values: &Vec<Scalar>) -> (result: Vec<Scalar>)
    ensures
        result@ == at_lossy(
            truth@,
            values@,
            if truth@.len() <= values@.len() {
                truth@.len()
            } else {
                values@.len()
            },
        ),
{
    let mut result: Vec<Scalar> = Vec::new();
    let mut i: usize = 0;
    while i < truth.len() && i < values.len()
        invariant
            i <= truth@.len(),
            i <= values@.len(),
            result@ == at_lossy(truth@, values@, i as nat),
        decreases truth@.len() - i,
    {
        if Scalar::zero().less_than(truth[i]) {
            result.push(values[i]);
        }
        i += 1;
    }
    result
}

proof fn lemma_lossy_lengths(truth: Seq<Scalar>, first: Seq<Scalar>, second: Seq<Scalar>, n: nat)
    ensures
        at_lossy(truth, first, n).len() == at_lossy(truth, second, n).len(),
    decreases n,
{
    if n > 0 {
        lemma_lossy_lengths(truth, first, second, (n - 1) as nat);
    }
}

/// Lists that belong to the same truth stay aligned when they are narrowed to lossy
/// samples, and the truth that is left is above zero throughout.
pub proof fn lossy_lists_stay_aligned(truth: Seq<Scalar>, values: Seq<Scalar>, n: nat, i: int)
    requires
        n <= truth.len(),
        n <= values.len(),
        0 <= i < at_lossy(truth, values, n).len(),
    ensures
        at_lossy(truth, truth, n).len() == at_lossy(truth, values, n).len(),
        (Scalar { bits: 0 }).lt(at_lossy(truth, truth, n)[i]),
        exists|k: int|
            0 <= k < n && #[trigger] truth[k] == at_lossy(truth, truth, n)[i] && values[k]
                == at_lossy(truth, values, n)[i],
    decreases n,
{
    lemma_lossy_lengths(truth, truth, values, n);
    if n > 0 {
        let m = (n - 1) as nat;
        lemma_lossy_lengths(truth, truth, values, m);
        if i < at_lossy(truth, values, m).len() {
            lossy_lists_stay_aligned(truth, values, m, i);
        } else {
            assert(truth[n - 1] == at_lossy(truth, truth, n)[i]);
        }
    }
}

/// What estimates a permittivity from noisy measurements.
#[derive(Clone, Copy, Debug, PartialEq, Eq, Structural)]
pub enum Estimator {
    /// The closed-form inversion.
    Nrw,
    /// A real network.
    Rvnn,
    /// A complex network.
    Cvnn,
}

impl Estimator {
    /// What the estimator is called.
    pub open spec fn label(self) -> Seq<char> {
        match self {
            Estimator::Nrw => "NRW Baseline   "@,
            Estimator::Rvnn => "RVNN Real-MLP  "@,
            Estimator::Cvnn => "CVNN Complex-MLP"@,
        }
    }

    /// What the estimator is called.
    pub fn as_str(self) -> (result: &'static str)
        ensures
            result@ == self.label(),
    {
        match self {
            Estimator::Nrw => "NRW Baseline   ",
            Estimator::Rvnn => "RVNN Real-MLP  ",
            Estimator::Cvnn => "CVNN Complex-MLP",
        }
    }
}

/// One part of the permittivity under noise, with its numbers written out.
#[derive(Debug)]
pub struct StabilityTexts {
    pub truth: String,
    pub mean: String,
    pub std: String,
    /// The largest relative error in percent.
    pub worst: String,
}

/// The lines on one part.
pub open spec fn part_lines(heading: Seq<char>, part: StabilityTexts) -> Seq<Seq<char>> {
    seq![
        heading + part.truth@ + "):"@,
        "    Extracted Mean: "@ + part.mean@,
        "    Extracted Std : "@ + part.std@,
        "    Worst-case Rel-Err: "@ + part.worst@ + "%"@,
    ]
}

/// The lines on an estimator under noise.
pub open spec fn stability_lines(
    estimator: Estimator,
    re: StabilityTexts,
    im: StabilityTexts,
) -> Seq<Seq<char>> {
    seq![left_aligned(estimator.label(), 20) + " Results:"@] + part_lines(
        "  Real Part (eps'_r = "@,
        re,
    ) + part_lines("  Imaginary Part (eps\"_r = "@, im)
}

fn push_part(lines: &mut Vec<String>, heading: &str, part: &StabilityTexts)
    ensures
        views(final(lines)@) == views(old(lines)@) + part_lines(heading@, *part),
{
    let ghost before = views(lines@);
    lines.push(concat3(heading, part.truth.as_str(), "):"));
    lines.push(concat2("    Extracted Mean: ", part.mean.as_str()));
    lines.push(concat2("    Extracted Std : ", part.std.as_str()));
    lines.push(concat3("    Worst-case Rel-Err: ", part.worst.as_str(), "%"));
    proof {
        assert(views(lines@) =~= before + part_lines(heading@, *part));
    }
}

/// The lines on an estimator under noise.
pub fn report_stability_results(
    estimator: Estimator,
    re: &StabilityTexts,
    im: &StabilityTexts,
) -> (result: Vec<String>)
    ensures
        views(result@) == stability_lines(estimator, *re, *im),
{
    let mut lines: Vec<String> = Vec::new();
    let mut title = align_left(estimator.as_str(), 20);
    title.append(" Results:");
    lines.push(title);
    proof {
        assert(views(lines@) =~= seq![left_aligned(estimator.label(), 20) + " Results:"@]);
    }
    push_part(&mut lines, "  Real Part (eps'_r = ", re);
    push_part(&mut lines, "  Imaginary Part (eps\"_r = ", im);
    lines
}

/// The places, among the first `n`, whose values lie between two bounds.
pub open spec fn places_between(values: Seq<Scalar>, low: Scalar, high: Scalar, n: nat) -> Seq<int>
    decreases n,
{
    if n == 0 {
        Seq::<int>::empty()
    } else {
        let before = places_between(values, low, high, (n - 1) as nat);
        if low.le(values[n - 1]) && values[n - 1].le(high) {
            before.push(n - 1)
        } else {
            before
        }
    }
}

/// The points of a region of the real part, both bounds included.
pub fn points_in_region(eps_prime: &Vec<Scalar>, low: Scalar, high: Scalar) -> (result: Vec<usize>)
    ensures
        result@.map_values(|i: usize| i as int) == places_between(
            eps_prime@,
            low,
            high,
            eps_prime@.len(),
        ),
{
    let mut result: Vec<usize> = Vec::new();
    let mut i: usize = 0;
    while i < eps_prime.len()
        invariant
            i <= eps_prime@.len(),
            result@.map_values(|i: usize| i as int) == places_between(
                eps_prime@,
                low,
                high,
                i as nat,
            ),
        decreases eps_prime@.len() - i,
    {
        if low.at_most(eps_prime[i]) && eps_prime[i].at_most(high) {
            let ghost before = result@;
            result.push(i);
            proof {
                assert(result@.map_values(|i: usize| i as int) =~= before.map_values(
                    |i: usize| i as int,
                ).push(i as int));
            }
        }
        i += 1;
    }
    result
}

/// A tally counts the errors within each limit, and its maximum is an error that none
/// exceeds. Relative errors are held against one and ten percent, absolute ones against
/// a tenth, a half and one.
pub proof fn tallies_count_the_errors_within(
    tally: ErrorTally,
    errors: Seq<Scalar>,
    limits: Seq<Scalar>,
    i: int,
)
    requires
        tally.tallies(errors, limits),
        0 <= i < limits.len(),
    ensures
        tally.count == errors.len(),
        tally.within@.len() == limits.len(),
        tally.within@[i] == errors.filter(|e: Scalar| e.le(limits[i])).len(),
        errors.len() > 0 ==> errors.contains(tally.max) && (forall|k: int|
            0 <= k < errors.len() ==> (#[trigger] errors[k]).total_rank()
                <= tally.max.total_rank()),
        relative_limits().len() == 2,
        relative_limits()[0].bits == 0x3ff0_0000_0000_0000,
        relative_limits()[1].bits == 0x4024_0000_0000_0000,
        absolute_limits().len() == 3,
        absolute_limits()[0].bits == 0x3fb9_9999_9999_999a,
        absolute_limits()[1].bits == 0x3fe0_0000_0000_0000,
        absolute_limits()[2].bits == 0x3ff0_0000_0000_0000,
{
    crate::workflows::ensemble::counts_are_of_the_values_within(errors, limits[i]);
}

/// Every lossy point is kept: the list is as long as there are points with a loss factor
/// above zero.
pub proof fn every_lossy_point_is_kept(truth: Seq<Scalar>, values: Seq<Scalar>, n: nat)
    requires
        n <= truth.len(),
    ensures
        at_lossy(truth, values, n).len() == truth.take(n as int).filter(
            |t: Scalar| (Scalar { bits: 0 }).lt(t),
        ).len(),
    decreases n,
{
    reveal(Seq::filter);
    if n > 0 {
        let fewer = (n - 1) as nat;
        every_lossy_point_is_kept(truth, values, fewer);
        assert(truth.take(n as int).drop_last() =~= truth.take(fewer as int));
    }
}

/// The points of a region are those between its bounds, bounds included, each once and in
/// order.
pub proof fn regions_hold_what_lies_between(
    values: Seq<Scalar>,
    low: Scalar,
    high: Scalar,
    n: nat,
    k: int,
)
    requires
        n <= values.len(),
    ensures
        places_between(values, low, high, n).contains(k) <==> 0 <= k < n && low.le(values[k])
            && values[k].le(high),
        forall|i: int, j: int|
            0 <= i < j < places_between(values, low, high, n).len() ==> #[trigger] places_between(
                values,
                low,
                high,
                n,
            )[i] < #[trigger] places_between(values, low, high, n)[j],
    decreases n,
{
    if n > 0 {
        let fewer = (n - 1) as nat;
        regions_hold_what_lies_between(values, low, high, fewer, k);
        let before = places_between(values, low, high, fewer);
        let all = places_between(values, low, high, n);
        assert forall|i: int| 0 <= i < before.len() implies 0 <= #[trigger] before[i] < fewer by {
            assert(before.contains(before[i]));
            regions_hold_what_lies_between(values, low, high, fewer, before[i]);
        }
        if before.contains(k) {
            let m = choose|m: int| 0 <= m < before.len() && before[m] == k;
            assert(all[m] == k);
        }
        if all.contains(k) && k != fewer {
            let m = choose|m: int| 0 <= m < all.len() && all[m] == k;
            assert(before[m] == k);
        }
        if k == fewer && low.le(values[k]) && values[k].le(high) {
            assert(all[all.len() - 1] == k);
        }
        if k == fewer && all.contains(k) {
            let m = choose|m: int| 0 <= m < all.len() && all[m] == k;
            if m < before.len() {
                assert(before[m] < fewer);
            }
        }
    }
}

/// A report of stability names the estimator and gives first the real part, then the
/// imaginary one, each with its own figures.
pub proof fn stability_is_told_part_by_part(
    estimator: Estimator,
    re: StabilityTexts,
    im: StabilityTexts,
)
    ensures
        ({
            let lines = stability_lines(estimator, re, im);
            &&& lines.len() == 9
            &&& lines[0].len() >= 20
            &&& lines[1] == "  Real Part (eps'_r = "@ + re.truth@ + "):"@
            &&& lines[2] == "    Extracted Mean: "@ + re.mean@
            &&& lines[3] == "    Extracted Std : "@ + re.std@
            &&& lines[4] == "    Worst-case Rel-Err: "@ + re.worst@ + "%"@
            &&& lines[5] == "  Imaginary Part (eps\"_r = "@ + im.truth@ + "):"@
            &&& lines[6] == "    Extracted Mean: "@ + im.mean@
            &&& lines[7] == "    Extracted Std : "@ + im.std@
            &&& lines[8] == "    Worst-case Rel-Err: "@ + im.worst@ + "%"@
        }),
{
}

/// Every estimator goes by a name of its own.
pub proof fn estimators_have_names_of_their_own(a: Estimator, b: Estimator)
    ensures
        Estimator::Nrw.label() == "NRW Baseline   "@,
        Estimator::Rvnn.label() == "RVNN Real-MLP  "@,
        Estimator::Cvnn.label() == "CVNN Complex-MLP"@,
        a != b ==> a.label() != b.label(),
{
    reveal_strlit("NRW Baseline   ");
    reveal_strlit("RVNN Real-MLP  ");
    reveal_strlit("CVNN Complex-MLP");
    assert("NRW Baseline   "@[0] == 'N' && "RVNN Real-MLP  "@[0] == 'R'
        && "CVNN Complex-MLP"@[0] == 'C');
}

} // verus!

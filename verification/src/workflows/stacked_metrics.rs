//! Predictions of an ensemble: forward passes in chunks, the median of the
//! members, its refinement, and the statistics of the outcome.

use crate::data::loader::{batches_for, divide_up};
use crate::text::{concat2, concat3, decimal, decimal_digits};
use vstd::prelude::*;
use vstd::string::StringExecFns;

verus! {

/// How many rows are predicted at a time, so that a refinement stays within
/// memory.
pub const CHUNK_ROWS: usize = 100_000;

/// A step on the way to the metrics of stacked predictions. A chunk is given by
/// its first row and its number of rows.
#[derive(Debug)]
pub enum MetricsStep {
    /// Tell the observer.
    Status(String),
    /// Build a model from each member's weights.
    BuildModels { members: usize },
    /// Predict a chunk with the model at an index.
    Forward { start: usize, rows: usize, member: usize },
    /// Take the median of the members' predictions of a chunk.
    TakeMedian { start: usize, rows: usize },
    /// Refine the prediction of a chunk, telling the observer every so many steps.
    Refine { start: usize, rows: usize, steps: usize, log_every: usize },
}

/// A step, with its text as a sequence of characters.
pub enum MetricsStepView {
    Status(Seq<char>),
    BuildModels { members: usize },
    Forward { start: usize, rows: usize, member: usize },
    TakeMedian { start: usize, rows: usize },
    Refine { start: usize, rows: usize, steps: usize, log_every: usize },
}

impl View for MetricsStep {
    type V = MetricsStepView;

    open spec fn view(&self) -> MetricsStepView {
        match self {
            MetricsStep::Status(text) => MetricsStepView::Status(text@),
            MetricsStep::BuildModels { members } => MetricsStepView::BuildModels {
                members: *members,
            },
            MetricsStep::Forward { start, rows, member } => MetricsStepView::Forward {
                start: *start,
                rows: *rows,
                member: *member,
            },
            MetricsStep::TakeMedian { start, rows } => MetricsStepView::TakeMedian {
                start: *start,
                rows: *rows,
            },
            MetricsStep::Refine { start, rows, steps, log_every } => MetricsStepView::Refine {
                start: *start,
                rows: *rows,
                steps: *steps,
                log_every: *log_every,
            },
        }
    }
}

/// The views of a list of steps.
pub open spec fn metrics_step_views(steps: Seq<MetricsStep>) -> Seq<MetricsStepView> {
    steps.map_values(|step: MetricsStep| step@)
}

/// How many chunks a test set takes.
pub open spec fn chunk_count(rows: usize) -> int {
    batches_for(rows as int, CHUNK_ROWS as int)
}

/// The first row of a chunk.
pub open spec fn chunk_start(k: int) -> int {
    k * CHUNK_ROWS
}

/// The row behind a chunk.
pub open spec fn chunk_end(rows: usize, k: int) -> int {
    if chunk_start(k + 1) <= rows {
        chunk_start(k + 1)
    } else {
        rows as int
    }
}

/// The status while the models are built.
pub open spec fn build_status(members: usize) -> Seq<char> {
    "Stage 3/4: building "@ + decimal_digits(members as nat) + " ensemble model"@ + if members
        == 1 {
        "…"@
    } else {
        "s…"@
    }
}

/// The status while a member predicts a chunk.
pub open spec fn forward_status(chunk: int, chunks: int, member: int, members: usize) -> Seq<char> {
    if chunks > 1 {
        "Stage 3/4: forward-pass chunk "@ + decimal_digits(chunk as nat) + "/"@ + decimal_digits(
            chunks as nat,
        ) + ", member "@ + decimal_digits(member as nat) + "/"@ + decimal_digits(members as nat)
            + "…"@
    } else {
        "Stage 3/4: forward-pass member "@ + decimal_digits(member as nat) + "/"@ + decimal_digits(
            members as nat,
        ) + " on test set…"@
    }
}

/// The status while the median is taken.
pub open spec fn median_status(members: usize) -> Seq<char> {
    "Stage 3/4: computing per-element median across "@ + decimal_digits(members as nat)
        + " members…"@
}

/// The status during a refinement. `residual` is the residual as text.
pub open spec fn refine_status(
    chunk: int,
    chunks: int,
    step: usize,
    steps: usize,
    residual: Seq<char>,
) -> Seq<char> {
    let progress = "NRW refinement "@ + decimal_digits(step as nat) + "/"@ + decimal_digits(
        steps as nat,
    ) + " (residual = "@ + residual + ")"@;
    if chunks > 1 {
        "Stage 3/4: chunk "@ + decimal_digits(chunk as nat) + "/"@ + decimal_digits(chunks as nat)
            + ", "@ + progress
    } else {
        "Stage 3/4: "@ + progress
    }
}

/// How often a refinement tells the observer: about ten times.
pub open spec fn log_interval(steps: usize) -> int {
    if steps == 0 {
        1
    } else {
        batches_for(steps as int, 10)
    }
}

/// The forward passes of the first `count` members over a chunk.
pub open spec fn forward_steps(rows: usize, members: usize, k: int, count: nat) -> Seq<
    MetricsStepView,
>
    decreases count,
{
    if count == 0 {
        Seq::<MetricsStepView>::empty()
    } else {
        let index = count - 1;
        forward_steps(rows, members, k, index as nat) + seq![
            MetricsStepView::Status(
                forward_status(k + 1, chunk_count(rows), index + 1, members),
            ),
            MetricsStepView::Forward {
                start: chunk_start(k) as usize,
                rows: (chunk_end(rows, k) - chunk_start(k)) as usize,
                member: index as usize,
            },
        ]
    }
}

/// What follows the forward passes over a chunk: the median where there are
/// several members, and the refinement where it is on.
pub open spec fn chunk_closing(rows: usize, members: usize, refine_steps: usize, k: int) -> Seq<
    MetricsStepView,
> {
    let start = chunk_start(k) as usize;
    let len = (chunk_end(rows, k) - chunk_start(k)) as usize;
    let told = if members > 1 && chunk_count(rows) == 1 {
        seq![MetricsStepView::Status(median_status(members))]
    } else {
        Seq::<MetricsStepView>::empty()
    };
    let median = if members > 1 {
        seq![MetricsStepView::TakeMedian { start, rows: len }]
    } else {
        Seq::<MetricsStepView>::empty()
    };
    let refinement = if refine_steps > 0 {
        seq![
            MetricsStepView::Refine {
                start,
                rows: len,
                steps: refine_steps,
                log_every: log_interval(refine_steps) as usize,
            },
        ]
    } else {
        Seq::<MetricsStepView>::empty()
    };
    told + median + refinement
}

/// The steps of the first `count` chunks.
pub open spec fn chunk_steps(rows: usize, members: usize, refine_steps: usize, count: nat) -> Seq<
    MetricsStepView,
>
    decreases count,
{
    if count == 0 {
        Seq::<MetricsStepView>::empty()
    } else {
        let k = count - 1;
        chunk_steps(rows, members, refine_steps, k as nat) + forward_steps(
            rows,
            members,
            k,
            members as nat,
        ) + chunk_closing(rows, members, refine_steps, k)
    }
}

/// The steps to the metrics of stacked predictions over a test set.
pub open spec fn metrics_steps(rows: usize, members: usize, refine_steps: usize) -> Seq<
    MetricsStepView,
> {
    seq![
        MetricsStepView::Status(build_status(members)),
        MetricsStepView::BuildModels { members },
    ] + chunk_steps(rows, members, refine_steps, chunk_count(rows) as nat)
}

proof fn lemma_chunk_count(rows: usize)
    ensures
        chunk_count(rows) >= 0,
        chunk_start(chunk_count(rows)) >= rows,
        chunk_count(rows) > 0 ==> chunk_start(chunk_count(rows) - 1) < rows,
        chunk_count(rows) == 0 <==> rows == 0,
{
}

/// The chunks follow one another without a gap, none is empty or longer than the
/// limit, and together they hold every row of the test set.
pub proof fn chunks_cover_the_rows(rows: usize, k: int)
    requires
        0 <= k < chunk_count(rows),
    ensures
        chunk_start(0) == 0,
        chunk_start(k) < chunk_end(rows, k) <= rows,
        chunk_end(rows, k) - chunk_start(k) <= CHUNK_ROWS,
        k + 1 < chunk_count(rows) ==> chunk_end(rows, k) == chunk_start(k + 1),
        k + 1 == chunk_count(rows) ==> chunk_end(rows, k) == rows,
{
    lemma_chunk_count(rows);
}

fn progress_text(chunk: usize, chunks: usize, member: usize, members: usize) -> (result: String)
    ensures
        result@ == forward_status(chunk as int, chunks as int, member as int, members),
{
    let m = decimal(member as u64);
    let total = decimal(members as u64);
    if chunks > 1 {
        let c = decimal(chunk as u64);
        let n = decimal(chunks as u64);
        let mut text = concat3("Stage 3/4: forward-pass chunk ", c.as_str(), "/");
        text.append(n.as_str());
        text.append(", member ");
        text.append(m.as_str());
        text.append("/");
        text.append(total.as_str());
        text.append("…");
        text
    } else {
        let mut text = concat3("Stage 3/4: forward-pass member ", m.as_str(), "/");
        text.append(total.as_str());
        text.append(" on test set…");
        text
    }
}

/// The status during a refinement.
pub fn refinement_text(chunk: usize, chunks: usize, step: usize, steps: usize, residual: &str) -> (result:
    String)
    ensures
        result@ == refine_status(chunk as int, chunks as int, step, steps, residual@),
{
    let s = decimal(step as u64);
    let total = decimal(steps as u64);
    let mut progress = concat3("NRW refinement ", s.as_str(), "/");
    progress.append(total.as_str());
    progress.append(" (residual = ");
    progress.append(residual);
    progress.append(")");
    if chunks > 1 {
        let c = decimal(chunk as u64);
        let n = decimal(chunks as u64);
        let mut text = concat3("Stage 3/4: chunk ", c.as_str(), "/");
        text.append(n.as_str());
        text.append(", ");
        text.append(progress.as_str());
        text
    } else {
        concat2("Stage 3/4: ", progress.as_str())
    }
}

/// How often a refinement of so many steps tells the observer.
pub fn refinement_interval(steps: usize) -> (result: usize)
    ensures
        result == log_interval(steps),
        result > 0,
{
    if steps == 0 {
        1
    } else {
        divide_up(steps, 10)
    }
}

/// Whether the observer is told after a step, counted from one.
pub open spec fn is_logged(step: int, steps: int, log_every: int) -> bool {
    log_every > 0 && (step == steps || step % log_every == 0)
}

/// Whether the observer is told after a step, counted from one. Without an
/// interval it never is.
pub fn should_log(step: usize, steps: usize, log_every: usize) -> (result: bool)
    ensures
        result == is_logged(step as int, steps as int, log_every as int),
{
    log_every > 0 && (step == steps || step % log_every == 0)
}

/// The observer is told of the last step of a refinement, and between two times at
/// which it is told lie at most a tenth of the steps, rounded up.
pub proof fn refinement_reports_its_end(steps: usize, step: int)
    requires
        steps > 0,
        0 <= step < steps,
    ensures
        is_logged(steps as int, steps as int, log_interval(steps)),
        exists|next: int|
            step < next <= steps && next <= step + log_interval(steps) && #[trigger] is_logged(
                next,
                steps as int,
                log_interval(steps),
            ),
        log_interval(steps) * 10 < steps + 10,
{
    let every = log_interval(steps);
    let next = step - step % every + every;
    vstd::arithmetic::div_mod::lemma_fundamental_div_mod(step, every);
    assert(next == every * (step / every + 1)) by (nonlinear_arith)
        requires
            next == step - step % every + every,
            step == every * (step / every) + step % every,
    ;
    vstd::arithmetic::div_mod::lemma_mod_multiples_basic(step / every + 1, every);
    assert((step / every + 1) * every == every * (step / every + 1)) by (nonlinear_arith);
    if next <= steps {
        assert(is_logged(next, steps as int, every));
    } else {
        assert(is_logged(steps as int, steps as int, every));
    }
}

/// The steps to the metrics of stacked predictions over a test set of so many
/// rows.
pub fn plan_stacked_metrics(rows: usize, members: usize, refine_steps: usize) -> (result: Vec<
    MetricsStep,
>)
    requires
        members > 0,
    ensures
        metrics_step_views(result@) == metrics_steps(rows, members, refine_steps),
{
    let mut steps: Vec<MetricsStep> = Vec::new();
    let count = decimal(members as u64);
    let end = if members == 1 {
        "…"
    } else {
        "s…"
    };
    let mut text = concat3("Stage 3/4: building ", count.as_str(), " ensemble model");
    text.append(end);
    steps.push(MetricsStep::Status(text));
    steps.push(MetricsStep::BuildModels { members });
    let ghost head = metrics_step_views(steps@);
    proof {
        assert(head =~= seq![
            MetricsStepView::Status(build_status(members)),
            MetricsStepView::BuildModels { members },
        ]);
        lemma_chunk_count(rows);
    }
    let chunks: usize = divide_up(rows, CHUNK_ROWS);
    let log_every: usize = refinement_interval(refine_steps);
    let mut k: usize = 0;
    proof {
        assert(metrics_step_views(steps@) =~= head + chunk_steps(rows, members, refine_steps, 0));
    }
    while k < chunks
        invariant
            k <= chunks,
            members > 0,
            chunks == chunk_count(rows),
            log_every == log_interval(refine_steps),
            metrics_step_views(steps@) == head + chunk_steps(
                rows,
                members,
                refine_steps,
                k as nat,
            ),
        decreases chunks - k,
    {
        proof {
            chunks_cover_the_rows(rows, k as int);
        }
        let start: usize = k * CHUNK_ROWS;
        let end: usize = if rows - start <= CHUNK_ROWS {
            rows
        } else {
            start + CHUNK_ROWS
        };
        let len: usize = end - start;
        let ghost earlier = metrics_step_views(steps@);
        let mut member: usize = 0;
        proof {
            assert(metrics_step_views(steps@) =~= earlier + forward_steps(
                rows,
                members,
                k as int,
                0,
            ));
        }
        while member < members
            invariant
                member <= members,
                k < chunks,
                chunks == chunk_count(rows),
                start == chunk_start(k as int),
                end == chunk_end(rows, k as int),
                len == end - start,
                metrics_step_views(steps@) == earlier + forward_steps(
                    rows,
                    members,
                    k as int,
                    member as nat,
                ),
            decreases members - member,
        {
            let ghost before = metrics_step_views(steps@);
            steps.push(MetricsStep::Status(progress_text(k + 1, chunks, member + 1, members)));
            steps.push(MetricsStep::Forward { start, rows: len, member });
            proof {
                let added = seq![
                    MetricsStepView::Status(
                        forward_status(k + 1, chunks as int, member + 1, members),
                    ),
                    MetricsStepView::Forward { start, rows: len, member },
                ];
                assert(metrics_step_views(steps@) =~= before + added);
                assert(forward_steps(rows, members, k as int, (member + 1) as nat)
                    == forward_steps(rows, members, k as int, member as nat) + added);
                assert(metrics_step_views(steps@) =~= earlier + forward_steps(
                    rows,
                    members,
                    k as int,
                    (member + 1) as nat,
                ));
            }
            member += 1;
        }
        let ghost forwarded = metrics_step_views(steps@);
        if members > 1 && chunks == 1 {
            let number = decimal(members as u64);
            steps.push(
                MetricsStep::Status(
                    concat3(
                        "Stage 3/4: computing per-element median across ",
                        number.as_str(),
                        " members…",
                    ),
                ),
            );
        }
        if members > 1 {
            steps.push(MetricsStep::TakeMedian { start, rows: len });
        }
        if refine_steps > 0 {
            steps.push(MetricsStep::Refine { start, rows: len, steps: refine_steps, log_every });
        }
        proof {
            let closing = chunk_closing(rows, members, refine_steps, k as int);
            assert(metrics_step_views(steps@) =~= forwarded + closing);
            assert(chunk_steps(rows, members, refine_steps, (k + 1) as nat) == chunk_steps(
                rows,
                members,
                refine_steps,
                k as nat,
            ) + forward_steps(rows, members, k as int, members as nat) + closing);
            assert(metrics_step_views(steps@) =~= head + chunk_steps(
                rows,
                members,
                refine_steps,
                (k + 1) as nat,
            ));
        }
        k += 1;
    }
    steps
}

/// Every member predicts every chunk, in turn: the forward pass of member `m` on a chunk
/// covers just the rows of the chunk.
pub proof fn every_member_predicts_every_chunk(
    rows: usize,
    members: usize,
    k: int,
    count: nat,
    m: int,
)
    requires
        0 <= m < count,
    ensures
        forward_steps(rows, members, k, count).len() == 2 * count,
        forward_steps(rows, members, k, count)[2 * m] == MetricsStepView::Status(
            forward_status(k + 1, chunk_count(rows), m + 1, members),
        ),
        forward_steps(rows, members, k, count)[2 * m + 1] == (MetricsStepView::Forward {
            start: chunk_start(k) as usize,
            rows: (chunk_end(rows, k) - chunk_start(k)) as usize,
            member: m as usize,
        }),
    decreases count,
{
    lemma_forward_len(rows, members, k, count);
    let fewer = (count - 1) as nat;
    lemma_forward_len(rows, members, k, fewer);
    if m < fewer {
        every_member_predicts_every_chunk(rows, members, k, fewer, m);
    }
}

proof fn lemma_forward_len(rows: usize, members: usize, k: int, count: nat)
    ensures
        forward_steps(rows, members, k, count).len() == 2 * count,
    decreases count,
{
    if count > 0 {
        lemma_forward_len(rows, members, k, (count - 1) as nat);
    }
}

/// After the forward passes of a chunk comes the median of the members, exactly where
/// there is more than one, and then the refinement, exactly where steps are set, with
/// these steps; both cover the rows of the chunk.
pub proof fn medians_come_before_refinement(
    rows: usize,
    members: usize,
    refine_steps: usize,
    k: int,
)
    ensures
        ({
            let closing = chunk_closing(rows, members, refine_steps, k);
            let n = closing.len() as int;
            let start = chunk_start(k) as usize;
            let len = (chunk_end(rows, k) - chunk_start(k)) as usize;
            let refined = if refine_steps > 0 {
                1int
            } else {
                0
            };
            &&& refine_steps > 0 ==> n > 0 && (closing[n - 1] matches MetricsStepView::Refine {
                start: from,
                rows: over,
                steps,
                ..
            } && from == start && over == len && steps == refine_steps)
            &&& members > 1 ==> n > refined && closing[n - 1 - refined] == (
            MetricsStepView::TakeMedian { start, rows: len })
            &&& forall|i: int|
                0 <= i < n && (#[trigger] closing[i]) is TakeMedian ==> members > 1 && i == n - 1
                    - refined
            &&& forall|i: int|
                0 <= i < n && (#[trigger] closing[i]) is Refine ==> refine_steps > 0 && i == n - 1
        }),
{
}

/// Test rows are taken in chunks of the same size, in order; only the last may be shorter.
/// A refinement is reported about ten times: the interval is the least with which ten
/// reports cover all steps.
pub proof fn chunks_and_reports_are_even(rows: usize, k: int, steps: usize)
    requires
        0 <= k < chunk_count(rows),
        steps > 0,
    ensures
        chunk_start(k) == 100_000 * k,
        k + 1 < chunk_count(rows) ==> chunk_end(rows, k) - chunk_start(k) == 100_000,
        10 * log_interval(steps) >= steps,
        10 * (log_interval(steps) - 1) < steps,
        log_interval(0) == 1,
{
    chunks_cover_the_rows(rows, k);
}

/// The models are built before anything else, for all members. Then come the chunks in
/// order: each is predicted and closed before the next begins, and nothing else is done.
pub proof fn chunks_are_finished_in_order(
    rows: usize,
    members: usize,
    refine_steps: usize,
    k: int,
)
    requires
        0 <= k < chunk_count(rows),
    ensures
        ({
            let steps = metrics_steps(rows, members, refine_steps);
            let at = 2 + chunk_steps(rows, members, refine_steps, k as nat).len() as int;
            let next = 2 + chunk_steps(rows, members, refine_steps, (k + 1) as nat).len() as int;
            let forward = forward_steps(rows, members, k, members as nat);
            &&& steps[0] is Status
            &&& steps[1] == (MetricsStepView::BuildModels { members })
            &&& k == 0 ==> at == 2
            &&& at <= at + forward.len() <= next <= steps.len()
            &&& steps.subrange(at, at + forward.len()) == forward
            &&& steps.subrange(at + forward.len(), next) == chunk_closing(
                rows,
                members,
                refine_steps,
                k,
            )
            &&& k + 1 == chunk_count(rows) ==> next == steps.len()
        }),
{
    let count = chunk_count(rows) as nat;
    let all = chunk_steps(rows, members, refine_steps, count);
    let before = chunk_steps(rows, members, refine_steps, k as nat);
    let after = chunk_steps(rows, members, refine_steps, (k + 1) as nat);
    let forward = forward_steps(rows, members, k, members as nat);
    let closing = chunk_closing(rows, members, refine_steps, k);
    lemma_chunk_steps_begin(rows, members, refine_steps, (k + 1) as nat, count);
    assert(after == before + forward + closing);
    let steps = metrics_steps(rows, members, refine_steps);
    let at = 2 + before.len() as int;
    let next = 2 + after.len() as int;
    assert forall|i: int| 0 <= i < after.len() implies steps[2 + i] == #[trigger] after[i] by {
        assert(all.take(after.len() as int)[i] == after[i]);
        assert(steps[2 + i] == all[i]);
    }
    assert(steps.subrange(at, at + forward.len()) =~= forward) by {
        assert forall|i: int| 0 <= i < forward.len() implies steps[at + i] == forward[i] by {
            assert(after[before.len() + i] == forward[i]);
        }
    }
    assert(steps.subrange(at + forward.len(), next) =~= closing) by {
        assert forall|i: int| 0 <= i < closing.len() implies steps[at + forward.len() + i]
            == closing[i] by {
            assert(after[before.len() + forward.len() + i] == closing[i]);
        }
    }
}

proof fn lemma_chunk_steps_begin(
    rows: usize,
    members: usize,
    refine_steps: usize,
    fewer: nat,
    count: nat,
)
    requires
        fewer <= count,
    ensures
        ({
            let part = chunk_steps(rows, members, refine_steps, fewer);
            let all = chunk_steps(rows, members, refine_steps, count);
            part.len() <= all.len() && all.take(part.len() as int) == part
        }),
    decreases count,
{
    let part = chunk_steps(rows, members, refine_steps, fewer);
    let all = chunk_steps(rows, members, refine_steps, count);
    if fewer < count {
        let less = chunk_steps(rows, members, refine_steps, (count - 1) as nat);
        lemma_chunk_steps_begin(rows, members, refine_steps, fewer, (count - 1) as nat);
        assert(all.take(part.len() as int) =~= less.take(part.len() as int));
    } else {
        assert(all.take(part.len() as int) =~= part);
    }
}

/// The last step is reported, and every step that the interval divides; without an interval
/// none is.
pub proof fn the_last_step_is_always_reported(step: int, steps: int, log_every: int)
    ensures
        log_every > 0 ==> is_logged(steps, steps, log_every),
        log_every == 0 ==> !is_logged(step, steps, log_every),
        log_every > 0 && step != steps ==> (is_logged(step, steps, log_every) <==> step
            % log_every == 0),
{
}

} // verus!

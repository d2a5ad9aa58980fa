//! Benchmark runs: which suites, which cases, and how the report reads.

use crate::base::error::CoreError;
use crate::text::{
    align_left, align_right, concat2, concat3, copy_of, decimal, decimal_digits, join_lines,
    left_aligned, lines_text, lowered, right_aligned, same_text, to_ascii_lowercase,
    to_uppercase, uppercase_form, views,
};
use vstd::prelude::*;
use vstd::string::StringExecFns;

verus! {

/// What a benchmark run is asked to do.
#[derive(Debug)]
pub struct BenchmarkConfig {
    /// The suite: `all`, `nrw`, `model` or `training`.
    pub suite: String,
    /// Repetitions of each case.
    pub iterations: usize,
    pub output_dir: String,
    /// Run the external harness as well.
    pub criterion: bool,
    pub seed: u64,
}

/// A group of benchmark cases.
#[derive(Clone, Copy, Debug, PartialEq, Eq, Structural)]
pub enum Suite {
    Nrw,
    Model,
    Training,
}

/// The suites that a name stands for, in any case of letters.
pub open spec fn suites_named(name: Seq<char>) -> Option<Seq<Suite>> {
    let lower = lowered(name);
    if lower == "all"@ {
        Some(seq![Suite::Nrw, Suite::Model, Suite::Training])
    } else if lower == "nrw"@ {
        Some(seq![Suite::Nrw])
    } else if lower == "model"@ {
        Some(seq![Suite::Model])
    } else if lower == "training"@ {
        Some(seq![Suite::Training])
    } else {
        None
    }
}

/// The suites to run, in order.
pub fn select_suites(name: &str) -> (result: Result<Vec<Suite>, CoreError>)
    ensures
        result is Ok <==> suites_named(name@) is Some,
        result matches Ok(suites) ==> suites_named(name@) == Some(suites@),
        result matches Err(e) ==> e.says(
            "unknown suite '"@ + lowered(name@) + "', expected: all, nrw, model, training"@,
        ),
{
    let lower = to_ascii_lowercase(name);
    let mut suites: Vec<Suite> = Vec::new();
    if same_text(lower.as_str(), "all") {
        suites.push(Suite::Nrw);
        suites.push(Suite::Model);
        suites.push(Suite::Training);
        proof {
            assert(suites@ == seq![Suite::Nrw, Suite::Model, Suite::Training]);
        }
    } else if same_text(lower.as_str(), "nrw") {
        suites.push(Suite::Nrw);
        proof {
            assert(suites@ == seq![Suite::Nrw]);
        }
    } else if same_text(lower.as_str(), "model") {
        suites.push(Suite::Model);
        proof {
            assert(suites@ == seq![Suite::Model]);
        }
    } else if same_text(lower.as_str(), "training") {
        suites.push(Suite::Training);
        proof {
            assert(suites@ == seq![Suite::Training]);
        }
    } else {
        return Err(
            CoreError::Msg(
                concat3(
                    "unknown suite '",
                    lower.as_str(),
                    "', expected: all, nrw, model, training",
                ),
            ),
        );
    }
    Ok(suites)
}

/// Where a report goes.
#[derive(Clone, Copy, Debug, PartialEq, Eq, Structural)]
pub enum ReportTarget {
    Json,
    Markdown,
    Text,
}

/// The target that a format name stands for.
pub open spec fn target_named(format: Seq<char>) -> Option<ReportTarget> {
    if format == "json"@ {
        Some(ReportTarget::Json)
    } else if format == "markdown"@ || format == "md"@ {
        Some(ReportTarget::Markdown)
    } else if format == "text"@ {
        Some(ReportTarget::Text)
    } else {
        None
    }
}

/// The target that a format name stands for.
pub fn report_target(format: &str) -> (result: Result<ReportTarget, CoreError>)
    ensures
        result is Ok <==> target_named(format@) is Some,
        result matches Ok(target) ==> target_named(format@) == Some(target),
        result matches Err(e) ==> e.says("unknown benchmark format '"@ + format@ + "'"@),
{
    if same_text(format, "json") {
        Ok(ReportTarget::Json)
    } else if same_text(format, "markdown") || same_text(format, "md") {
        Ok(ReportTarget::Markdown)
    } else if same_text(format, "text") {
        Ok(ReportTarget::Text)
    } else {
        Err(CoreError::Msg(concat3("unknown benchmark format '", format, "'")))
    }
}

/// Every output format has a target for its report.
pub proof fn formats_have_targets(format: crate::cli::shared::OutputFormat)
    ensures
        target_named(format.name()) == Some(
            match format {
                crate::cli::shared::OutputFormat::Text => ReportTarget::Text,
                crate::cli::shared::OutputFormat::Json => ReportTarget::Json,
                crate::cli::shared::OutputFormat::Markdown => ReportTarget::Markdown,
            },
        ),
{
    reveal_strlit("text");
    reveal_strlit("json");
    reveal_strlit("markdown");
    reveal_strlit("md");
    assert("text"@[0] == 't' && "json"@[0] == 'j');
}

/// One case of a suite.
#[derive(Debug)]
pub struct BenchCase {
    pub name: String,
    /// The batch size, or the width of the hidden layer.
    pub size: usize,
    /// Repetitions.
    pub iterations: usize,
}

/// The sizes that a suite is run at.
pub open spec fn suite_sizes(suite: Suite) -> Seq<usize> {
    match suite {
        Suite::Nrw => seq![1, 64, 256, 1024, 4096],
        Suite::Model => seq![32, 64, 128, 256],
        Suite::Training => seq![32, 128],
    }
}

/// The name of a case; a training case is named after its number of samples, too.
pub open spec fn case_name(suite: Suite, size: usize, samples: usize) -> Seq<char> {
    let number = decimal_digits(size as nat);
    match suite {
        Suite::Nrw => "nrw_batch_"@ + number,
        Suite::Model => "forward_h"@ + number + "x3_b256"@,
        Suite::Training => "train_1ep_h"@ + number + "x2_n"@ + decimal_digits(samples as nat),
    }
}

/// The repetitions of a case; training is repeated twenty times at most.
pub open spec fn case_iterations(suite: Suite, iterations: usize) -> usize {
    if suite == Suite::Training && iterations > 20 {
        20
    } else {
        iterations
    }
}

fn make_case(suite: Suite, size: usize, samples: usize, iterations: usize) -> (result: BenchCase)
    ensures
        result.name@ == case_name(suite, size, samples),
        result.size == size,
        result.iterations == case_iterations(suite, iterations),
{
    let number = decimal(size as u64);
    let name = match suite {
        Suite::Nrw => concat2("nrw_batch_", number.as_str()),
        Suite::Model => concat3("forward_h", number.as_str(), "x3_b256"),
        Suite::Training => {
            let count = decimal(samples as u64);
            let mut name = concat3("train_1ep_h", number.as_str(), "x2_n");
            name.append(count.as_str());
            name
        },
    };
    let repeats: usize = match suite {
        Suite::Training => if iterations > 20 {
            20
        } else {
            iterations
        },
        _ => iterations,
    };
    BenchCase { name, size, iterations: repeats }
}

fn sizes_of(suite: Suite) -> (result: Vec<usize>)
    ensures
        result@ == suite_sizes(suite),
{
    let mut sizes: Vec<usize> = Vec::new();
    match suite {
        Suite::Nrw => {
            sizes.push(1);
            sizes.push(64);
            sizes.push(256);
            sizes.push(1024);
            sizes.push(4096);
        },
        Suite::Model => {
            sizes.push(32);
            sizes.push(64);
            sizes.push(128);
            sizes.push(256);
        },
        Suite::Training => {
            sizes.push(32);
            sizes.push(128);
        },
    }
    proof {
        assert(sizes@ == suite_sizes(suite));
    }
    sizes
}

/// The cases of a suite, in the order in which they are run.
pub fn suite_cases(suite: Suite, iterations: usize, samples: usize) -> (result: Vec<BenchCase>)
    ensures
        result@.len() == suite_sizes(suite).len(),
        forall|i: int|
            0 <= i < result@.len() ==> {
                &&& (#[trigger] result@[i]).size == suite_sizes(suite)[i]
                &&& result@[i].name@ == case_name(suite, suite_sizes(suite)[i], samples)
                &&& result@[i].iterations == case_iterations(suite, iterations)
            },
{
    let sizes = sizes_of(suite);
    let mut cases: Vec<BenchCase> = Vec::new();
    let mut i: usize = 0;
    while i < sizes.len()
        invariant
            i <= sizes@.len(),
            sizes@ == suite_sizes(suite),
            cases@.len() == i,
            forall|k: int|
                0 <= k < i ==> {
                    &&& (#[trigger] cases@[k]).size == suite_sizes(suite)[k]
                    &&& cases@[k].name@ == case_name(suite, suite_sizes(suite)[k], samples)
                    &&& cases@[k].iterations == case_iterations(suite, iterations)
                },
        decreases sizes@.len() - i,
    {
        cases.push(make_case(suite, sizes[i], samples, iterations));
        i += 1;
    }
    cases
}

/// A measurement whose numbers have been written out.
#[derive(Debug)]
pub struct BenchEntry {
    pub name: String,
    pub iterations: usize,
    /// The mean time of a repetition in microseconds.
    pub mean_us: String,
    /// Items per second, where that makes sense.
    pub throughput: Option<String>,
}

/// The measurements of a suite.
#[derive(Debug)]
pub struct SuiteResult {
    pub name: String,
    pub benchmarks: Vec<BenchEntry>,
}

/// All measurements of a run.
#[derive(Debug)]
pub struct BenchmarkReport {
    pub suites: Vec<SuiteResult>,
    /// The time that the run took, in seconds.
    pub total_time_secs: String,
}

/// The table row of a measurement.
pub open spec fn entry_row(entry: BenchEntry) -> Seq<char> {
    "| "@ + entry.name@ + " | "@ + decimal_digits(entry.iterations as nat) + " | "@
        + entry.mean_us@ + " | "@ + (match entry.throughput {
        Some(text) => text@,
        None => "—"@,
    }) + " |\n"@
}

/// The table rows of a list of measurements.
pub open spec fn entry_rows(entries: Seq<BenchEntry>) -> Seq<char>
    decreases entries.len(),
{
    if entries.len() == 0 {
        Seq::<char>::empty()
    } else {
        entry_rows(entries.drop_last()) + entry_row(entries.last())
    }
}

/// The section of a suite: its name, and a table of its measurements.
pub open spec fn suite_section(suite: SuiteResult) -> Seq<char> {
    "## "@ + suite.name@ + "\n\n"@ + "| Benchmark | Iters | Mean (µs) | Throughput |\n"@
        + "|-----------|-------|-----------|------------|\n"@ + entry_rows(suite.benchmarks@)
        + "\n"@
}

/// The sections of a list of suites.
pub open spec fn suite_sections(suites: Seq<SuiteResult>) -> Seq<char>
    decreases suites.len(),
{
    if suites.len() == 0 {
        Seq::<char>::empty()
    } else {
        suite_sections(suites.drop_last()) + suite_section(suites.last())
    }
}

/// A report in Markdown: a heading, the sections, and the total time.
pub open spec fn markdown_of(report: BenchmarkReport) -> Seq<char> {
    "# Benchmark Results\n\n"@ + suite_sections(report.suites@) + "**Total time:** "@
        + report.total_time_secs@ + "s\n"@
}

fn write_entry(entry: &BenchEntry) -> (result: String)
    ensures
        result@ == entry_row(*entry),
{
    let count = decimal(entry.iterations as u64);
    let mut row = concat3("| ", entry.name.as_str(), " | ");
    row.append(count.as_str());
    row.append(" | ");
    row.append(entry.mean_us.as_str());
    row.append(" | ");
    match &entry.throughput {
        Some(text) => row.append(text.as_str()),
        None => row.append("—"),
    }
    row.append(" |\n");
    row
}

fn write_suite(suite: &SuiteResult) -> (result: String)
    ensures
        result@ == suite_section(*suite),
{
    let mut rows = String::new();
    let mut i: usize = 0;
    while i < suite.benchmarks.len()
        invariant
            i <= suite.benchmarks@.len(),
            rows@ == entry_rows(suite.benchmarks@.take(i as int)),
        decreases suite.benchmarks@.len() - i,
    {
        let row = write_entry(&suite.benchmarks[i]);
        proof {
            let longer = suite.benchmarks@.take(i + 1);
            assert(longer.drop_last() == suite.benchmarks@.take(i as int));
            assert(longer.last() == suite.benchmarks@[i as int]);
        }
        rows.append(row.as_str());
        i += 1;
    }
    proof {
        assert(suite.benchmarks@.take(suite.benchmarks@.len() as int) == suite.benchmarks@);
    }
    let mut section = concat3("## ", suite.name.as_str(), "\n\n");
    section.append("| Benchmark | Iters | Mean (µs) | Throughput |\n");
    section.append("|-----------|-------|-----------|------------|\n");
    section.append(rows.as_str());
    section.append("\n");
    section
}

/// A report in Markdown.
pub fn format_markdown(report: &BenchmarkReport) -> (result: String)
    ensures
        result@ == markdown_of(*report),
{
    let mut sections = String::new();
    let mut i: usize = 0;
    while i < report.suites.len()
        invariant
            i <= report.suites@.len(),
            sections@ == suite_sections(report.suites@.take(i as int)),
        decreases report.suites@.len() - i,
    {
        let section = write_suite(&report.suites[i]);
        proof {
            let longer = report.suites@.take(i + 1);
            assert(longer.drop_last() == report.suites@.take(i as int));
            assert(longer.last() == report.suites@[i as int]);
        }
        sections.append(section.as_str());
        i += 1;
    }
    proof {
        assert(report.suites@.take(report.suites@.len() as int) == report.suites@);
    }
    let mut md = concat2("# Benchmark Results\n\n", sections.as_str());
    md.append("**Total time:** ");
    md.append(report.total_time_secs.as_str());
    md.append("s\n");
    md
}

/// A measurement as a line of columns.
pub open spec fn entry_line(entry: BenchEntry) -> Seq<char> {
    left_aligned(entry.name@, 35) + " "@ + right_aligned(
        decimal_digits(entry.iterations as nat),
        8,
    ) + " "@ + right_aligned(entry.mean_us@, 12) + " "@ + right_aligned(
        match entry.throughput {
            Some(text) => text@,
            None => ""@,
        },
        14,
    )
}

/// The titles of the columns.
pub open spec fn column_titles() -> Seq<char> {
    left_aligned("Benchmark"@, 35) + " "@ + right_aligned("Iters"@, 8) + " "@ + right_aligned(
        "Mean (µs)"@,
        12,
    ) + " "@ + right_aligned("Throughput"@, 14)
}

/// The lines above the measurements of a suite.
pub open spec fn suite_head(title: Seq<char>) -> Seq<Seq<char>> {
    seq![
        ""@,
        "=== "@ + title + " ==="@,
        column_titles(),
        "---------------------------------------------------------------------------"@,
    ]
}

/// The lines of a suite under a title.
pub open spec fn titled_lines(suite: SuiteResult, title: Seq<char>) -> Seq<Seq<char>> {
    suite_head(title) + suite.benchmarks@.map_values(|entry: BenchEntry| entry_line(entry))
}

/// The lines of a suite, under its name in upper case.
pub open spec fn suite_lines(suite: SuiteResult) -> Seq<Seq<char>> {
    titled_lines(suite, uppercase_form(suite.name@))
}

/// The lines of the first `count` suites.
pub open spec fn suites_lines(suites: Seq<SuiteResult>, count: nat) -> Seq<Seq<char>>
    decreases count,
{
    if count == 0 {
        Seq::<Seq<char>>::empty()
    } else {
        suites_lines(suites, (count - 1) as nat) + suite_lines(suites[count - 1])
    }
}

/// The line on the total time.
pub open spec fn total_lines(report: BenchmarkReport) -> Seq<Seq<char>> {
    seq![""@, "Total: "@ + report.total_time_secs@ + "s"@]
}

fn write_entry_line(entry: &BenchEntry) -> (result: String)
    ensures
        result@ == entry_line(*entry),
{
    let count = decimal(entry.iterations as u64);
    let name = align_left(entry.name.as_str(), 35);
    let iterations = align_right(count.as_str(), 8);
    let mean = align_right(entry.mean_us.as_str(), 12);
    let throughput = match &entry.throughput {
        Some(text) => align_right(text.as_str(), 14),
        None => align_right("", 14),
    };
    let mut line = concat3(name.as_str(), " ", iterations.as_str());
    line.append(" ");
    line.append(mean.as_str());
    line.append(" ");
    line.append(throughput.as_str());
    line
}

fn write_titles() -> (result: String)
    ensures
        result@ == column_titles(),
{
    let name = align_left("Benchmark", 35);
    let iterations = align_right("Iters", 8);
    let mean = align_right("Mean (µs)", 12);
    let throughput = align_right("Throughput", 14);
    let mut line = concat3(name.as_str(), " ", iterations.as_str());
    line.append(" ");
    line.append(mean.as_str());
    line.append(" ");
    line.append(throughput.as_str());
    line
}

/// The lines of a suite under a title.
pub fn suite_under_title(suite: &SuiteResult, title: &str) -> (result: Vec<String>)
    ensures
        views(result@) == titled_lines(*suite, title@),
{
    let mut lines: Vec<String> = Vec::new();
    lines.push(copy_of(""));
    lines.push(concat3("=== ", title, " ==="));
    lines.push(write_titles());
    lines.push(
        copy_of("---------------------------------------------------------------------------"),
    );
    let ghost head = suite_head(title@);
    let ghost rows = suite.benchmarks@.map_values(|entry: BenchEntry| entry_line(entry));
    proof {
        assert(views(lines@) =~= head);
        assert(views(lines@) =~= head + rows.take(0));
    }
    let mut i: usize = 0;
    while i < suite.benchmarks.len()
        invariant
            i <= suite.benchmarks@.len(),
            rows == suite.benchmarks@.map_values(|entry: BenchEntry| entry_line(entry)),
            views(lines@) == head + rows.take(i as int),
        decreases suite.benchmarks@.len() - i,
    {
        let ghost prior = views(lines@);
        let line = write_entry_line(&suite.benchmarks[i]);
        lines.push(line);
        proof {
            assert(views(lines@) =~= prior.push(line@));
            assert(rows.take(i + 1) =~= rows.take(i as int).push(rows[i as int]));
            assert(views(lines@) =~= head + rows.take(i + 1));
        }
        i += 1;
    }
    proof {
        assert(rows.take(rows.len() as int) =~= rows);
    }
    lines
}

fn push_suite(lines: &mut Vec<String>, suite: &SuiteResult)
    ensures
        views(final(lines)@) == views(old(lines)@) + suite_lines(*suite),
{
    let ghost before = lines@;
    let title = to_uppercase(suite.name.as_str());
    let mut more = suite_under_title(suite, title.as_str());
    let ghost added = more@;
    lines.append(&mut more);
    proof {
        assert(views(before + added) =~= views(before) + views(added));
    }
}

/// A report as plain text.
pub fn format_text(report: &BenchmarkReport) -> (result: String)
    ensures
        result@ == lines_text(
            suites_lines(report.suites@, report.suites@.len()) + total_lines(*report),
        ),
{
    let mut lines: Vec<String> = Vec::new();
    let mut i: usize = 0;
    proof {
        assert(views(lines@) =~= suites_lines(report.suites@, 0));
    }
    while i < report.suites.len()
        invariant
            i <= report.suites@.len(),
            views(lines@) == suites_lines(report.suites@, i as nat),
        decreases report.suites@.len() - i,
    {
        push_suite(&mut lines, &report.suites[i]);
        i += 1;
    }
    let ghost upper = views(lines@);
    lines.push(copy_of(""));
    lines.push(concat3("Total: ", report.total_time_secs.as_str(), "s"));
    proof {
        assert(views(lines@) =~= upper + total_lines(*report));
    }
    join_lines(&lines)
}

/// A suite is run by its name in any case, all of them by the word for it, in the order
/// inversion, model, training.
pub proof fn suites_are_run_by_name(name: Seq<char>)
    ensures
        lowered(name) == "all"@ ==> suites_named(name) == Some(
            seq![Suite::Nrw, Suite::Model, Suite::Training],
        ),
        lowered(name) == "nrw"@ ==> suites_named(name) == Some(seq![Suite::Nrw]),
        lowered(name) == "model"@ ==> suites_named(name) == Some(seq![Suite::Model]),
        lowered(name) == "training"@ ==> suites_named(name) == Some(seq![Suite::Training]),
        suites_named(name) is Some ==> lowered(name) == "all"@ || lowered(name) == "nrw"@
            || lowered(name) == "model"@ || lowered(name) == "training"@,
{
    reveal_strlit("all");
    reveal_strlit("nrw");
    reveal_strlit("model");
    reveal_strlit("training");
    assert("all"@[0] == 'a' && "nrw"@[0] == 'n');
    assert("all"@.len() == 3 && "nrw"@.len() == 3 && "model"@.len() == 5 && "training"@.len()
        == 8);
}

/// Every suite grows in size from case to case. Training is never repeated more than twenty
/// times; everything else is repeated as often as was asked.
pub proof fn cases_grow_and_training_is_capped(suite: Suite, iterations: usize, i: int, j: int)
    requires
        0 <= i < j < suite_sizes(suite).len(),
    ensures
        0 < suite_sizes(suite)[i] < suite_sizes(suite)[j],
        suite_sizes(Suite::Nrw) == seq![1usize, 64, 256, 1024, 4096],
        suite_sizes(Suite::Model) == seq![32usize, 64, 128, 256],
        suite_sizes(Suite::Training) == seq![32usize, 128],
        suite != Suite::Training ==> case_iterations(suite, iterations) == iterations,
        suite == Suite::Training && iterations <= 20 ==> case_iterations(suite, iterations)
            == iterations,
        suite == Suite::Training && iterations > 20 ==> case_iterations(suite, iterations) == 20,
{
}

/// Entries stand in a table with their name, their number of iterations, their mean time
/// and their throughput, in this order; a dash stands for a throughput that is not known.
pub proof fn entries_are_listed_with_their_figures(entry: BenchEntry)
    ensures
        entry.throughput matches Some(text) ==> entry_row(entry) == "| "@ + entry.name@ + " | "@
            + decimal_digits(entry.iterations as nat) + " | "@ + entry.mean_us@ + " | "@ + text@
            + " |\n"@,
        entry.throughput is None ==> entry_row(entry) == "| "@ + entry.name@ + " | "@
            + decimal_digits(entry.iterations as nat) + " | "@ + entry.mean_us@ + " | "@ + "—"@
            + " |\n"@,
        entry.name@.len() <= 35 && entry.mean_us@.len() <= 12 && (entry.throughput matches Some(
            text,
        ) ==> text@.len() <= 14) && decimal_digits(entry.iterations as nat).len() <= 8
            ==> entry_line(entry).len() == 72,
        entry_line(entry).take(entry.name@.len() as int) == entry.name@,
{
    reveal_strlit(" ");
    reveal_strlit("");
    assert(entry_line(entry).take(entry.name@.len() as int) =~= entry.name@);
}

/// Tables list their entries, and reports their suites, in order.
pub proof fn reports_keep_the_order(
    entries: Seq<BenchEntry>,
    entry: BenchEntry,
    suites: Seq<SuiteResult>,
    suite: SuiteResult,
)
    ensures
        entry_rows(entries.push(entry)) == entry_rows(entries) + entry_row(entry),
        suite_sections(suites.push(suite)) == suite_sections(suites) + suite_section(suite),
{
    assert(entries.push(entry).drop_last() =~= entries);
    assert(suites.push(suite).drop_last() =~= suites);
}

/// Suites are reported one after the other, in their order.
pub proof fn suites_are_reported_in_order(suites: Seq<SuiteResult>, count: nat)
    requires
        count < suites.len(),
    ensures
        suites_lines(suites, 0).len() == 0,
        suites_lines(suites, (count + 1) as nat) == suites_lines(suites, count) + suite_lines(
            suites[count as int],
        ),
{
}

} // verus!

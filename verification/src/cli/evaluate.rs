//! How the results of an evaluation are printed.

use crate::text::{
    concat2, concat3, copy_of, decimal, decimal_digits, join_lines, lines_text, share, share_text,
    views,
};
use vstd::prelude::*;
use vstd::string::StringExecFns;

verus! {

/// A classification as it is printed. The threshold and the share are written with
/// a fixed number of digits.
#[derive(Debug)]
pub struct PrintedThreshold {
    pub threshold: String,
    pub percent: String,
    pub ok_count: usize,
}

/// The results of an evaluation as they are printed, with their numbers written
/// out.
#[derive(Debug)]
pub struct PrintedEvaluation {
    pub model: String,
    pub test_samples: usize,
    pub thresholds: Vec<PrintedThreshold>,
    pub mean_error: String,
    pub max_error: String,
    pub min_error: String,
    pub std_error: String,
    pub r2_real: String,
    pub r2_imag: String,
}

/// A classification as a line of text.
pub open spec fn text_line(t: PrintedThreshold, total: usize) -> Seq<char> {
    "  OK@"@ + t.threshold@ + "%: "@ + share(t.percent@, t.ok_count, total)
}

/// A classification as a row of a table.
pub open spec fn table_row(t: PrintedThreshold, total: usize) -> Seq<char> {
    "| OK@"@ + t.threshold@ + "% | "@ + share(t.percent@, t.ok_count, total) + " |"@
}

/// The lines above the classifications.
pub open spec fn text_head(e: PrintedEvaluation) -> Seq<Seq<char>> {
    seq![
        "Evaluation Results: "@ + e.model@,
        "=================================================="@,
        "Test samples: "@ + decimal_digits(e.test_samples as nat),
        ""@,
        "Accuracy Metrics:"@,
    ]
}

/// The lines below the classifications.
pub open spec fn text_tail(e: PrintedEvaluation) -> Seq<Seq<char>> {
    seq![
        ""@,
        "Error Statistics:"@,
        "  Mean:  "@ + e.mean_error@ + "%"@,
        "  Max:   "@ + e.max_error@ + "%"@,
        "  Min:   "@ + e.min_error@ + "%"@,
        "  Std:   "@ + e.std_error@ + "%"@,
        ""@,
        "R² Scores:"@,
        "  ε' (real):  "@ + e.r2_real@,
        "  ε'' (imag): "@ + e.r2_imag@,
    ]
}

/// The results as plain lines.
pub open spec fn text_lines(e: PrintedEvaluation) -> Seq<Seq<char>> {
    text_head(e) + e.thresholds@.map_values(|t: PrintedThreshold| text_line(t, e.test_samples))
        + text_tail(e)
}

/// The lines above the classifications in a table.
pub open spec fn markdown_head(e: PrintedEvaluation) -> Seq<Seq<char>> {
    seq![
        "# Evaluation Results"@,
        ""@,
        "**Model:** `"@ + e.model@ + "`"@,
        ""@,
        "| Metric | Value |"@,
        "|--------|-------|"@,
    ]
}

/// The lines below the classifications in a table.
pub open spec fn markdown_tail(e: PrintedEvaluation) -> Seq<Seq<char>> {
    seq![
        "| Mean Error | "@ + e.mean_error@ + "% |"@,
        "| Max Error | "@ + e.max_error@ + "% |"@,
        "| R²(ε') | "@ + e.r2_real@ + " |"@,
        "| R²(ε'') | "@ + e.r2_imag@ + " |"@,
    ]
}

/// The results as a table.
pub open spec fn markdown_lines(e: PrintedEvaluation) -> Seq<Seq<char>> {
    markdown_head(e) + e.thresholds@.map_values(
        |t: PrintedThreshold| table_row(t, e.test_samples),
    ) + markdown_tail(e)
}

fn push_thresholds(lines: &mut Vec<String>, e: &PrintedEvaluation, markdown: bool)
    ensures
        views(final(lines)@) == views(old(lines)@) + e.thresholds@.map_values(
            |t: PrintedThreshold|
                if markdown {
                    table_row(t, e.test_samples)
                } else {
                    text_line(t, e.test_samples)
                },
        ),
{
    let ghost before = views(lines@);
    let ghost rows = e.thresholds@.map_values(
        |t: PrintedThreshold|
            if markdown {
                table_row(t, e.test_samples)
            } else {
                text_line(t, e.test_samples)
            },
    );
    let mut i: usize = 0;
    proof {
        assert(views(lines@) =~= before + rows.take(0));
    }
    while i < e.thresholds.len()
        invariant
            i <= e.thresholds@.len(),
            rows == e.thresholds@.map_values(
                |t: PrintedThreshold|
                    if markdown {
                        table_row(t, e.test_samples)
                    } else {
                        text_line(t, e.test_samples)
                    },
            ),
            views(lines@) == before + rows.take(i as int),
        decreases e.thresholds@.len() - i,
    {
        let t = &e.thresholds[i];
        let written = share_text(t.percent.as_str(), t.ok_count, e.test_samples);
        let line = if markdown {
            let mut row = concat3("| OK@", t.threshold.as_str(), "% | ");
            row.append(written.as_str());
            row.append(" |");
            row
        } else {
            let mut row = concat3("  OK@", t.threshold.as_str(), "%: ");
            row.append(written.as_str());
            row
        };
        let ghost prior = views(lines@);
        lines.push(line);
        proof {
            assert(views(lines@) =~= prior.push(line@));
            assert(rows.take(i + 1) =~= rows.take(i as int).push(rows[i as int]));
            assert(views(lines@) =~= before + rows.take(i + 1));
        }
        i += 1;
    }
    proof {
        assert(rows.take(rows.len() as int) =~= rows);
    }
}

/// The results as plain text.
pub fn format_text(e: &PrintedEvaluation) -> (result: String)
    ensures
        result@ == lines_text(text_lines(*e)),
{
    let samples = decimal(e.test_samples as u64);
    let mut lines: Vec<String> = Vec::new();
    lines.push(concat2("Evaluation Results: ", e.model.as_str()));
    lines.push(copy_of("=================================================="));
    lines.push(concat2("Test samples: ", samples.as_str()));
    lines.push(copy_of(""));
    lines.push(copy_of("Accuracy Metrics:"));
    let ghost head = views(lines@);
    push_thresholds(&mut lines, e, false);
    let ghost upper = views(lines@);
    lines.push(copy_of(""));
    lines.push(copy_of("Error Statistics:"));
    lines.push(concat3("  Mean:  ", e.mean_error.as_str(), "%"));
    lines.push(concat3("  Max:   ", e.max_error.as_str(), "%"));
    lines.push(concat3("  Min:   ", e.min_error.as_str(), "%"));
    lines.push(concat3("  Std:   ", e.std_error.as_str(), "%"));
    lines.push(copy_of(""));
    lines.push(copy_of("R² Scores:"));
    lines.push(concat2("  ε' (real):  ", e.r2_real.as_str()));
    lines.push(concat2("  ε'' (imag): ", e.r2_imag.as_str()));
    proof {
        assert(head =~= text_head(*e));
        assert(upper =~= head + e.thresholds@.map_values(
            |t: PrintedThreshold| text_line(t, e.test_samples),
        ));
        assert(views(lines@) =~= upper + text_tail(*e));
    }
    join_lines(&lines)
}

/// The results as a table.
pub fn format_markdown(e: &PrintedEvaluation) -> (result: String)
    ensures
        result@ == lines_text(markdown_lines(*e)),
{
    let mut lines: Vec<String> = Vec::new();
    lines.push(copy_of("# Evaluation Results"));
    lines.push(copy_of(""));
    lines.push(concat3("**Model:** `", e.model.as_str(), "`"));
    lines.push(copy_of(""));
    lines.push(copy_of("| Metric | Value |"));
    lines.push(copy_of("|--------|-------|"));
    let ghost head = views(lines@);
    push_thresholds(&mut lines, e, true);
    let ghost upper = views(lines@);
    lines.push(concat3("| Mean Error | ", e.mean_error.as_str(), "% |"));
    lines.push(concat3("| Max Error | ", e.max_error.as_str(), "% |"));
    lines.push(concat3("| R²(ε') | ", e.r2_real.as_str(), " |"));
    lines.push(concat3("| R²(ε'') | ", e.r2_imag.as_str(), " |"));
    proof {
        assert(head =~= markdown_head(*e));
        assert(upper =~= head + e.thresholds@.map_values(
            |t: PrintedThreshold| table_row(t, e.test_samples),
        ));
        assert(views(lines@) =~= upper + markdown_tail(*e));
    }
    join_lines(&lines)
}

/// Printed results name every number by what it is, in text and in a table, and list the
/// classifications in their order.
pub proof fn printed_results_name_their_numbers(e: PrintedEvaluation, i: int)
    ensures
        text_lines(e).contains("  Mean:  "@ + e.mean_error@ + "%"@),
        text_lines(e).contains("  Max:   "@ + e.max_error@ + "%"@),
        text_lines(e).contains("  Min:   "@ + e.min_error@ + "%"@),
        text_lines(e).contains("  Std:   "@ + e.std_error@ + "%"@),
        text_lines(e).contains("  ε' (real):  "@ + e.r2_real@),
        text_lines(e).contains("  ε'' (imag): "@ + e.r2_imag@),
        text_lines(e).contains("Test samples: "@ + decimal_digits(e.test_samples as nat)),
        text_lines(e).contains("Evaluation Results: "@ + e.model@),
        markdown_lines(e).contains("| Mean Error | "@ + e.mean_error@ + "% |"@),
        markdown_lines(e).contains("| Max Error | "@ + e.max_error@ + "% |"@),
        markdown_lines(e).contains("| R²(ε') | "@ + e.r2_real@ + " |"@),
        markdown_lines(e).contains("| R²(ε'') | "@ + e.r2_imag@ + " |"@),
        0 <= i < e.thresholds@.len() ==> text_lines(e)[5 + i] == "  OK@"@
            + e.thresholds@[i].threshold@ + "%: "@ + e.thresholds@[i].percent@ + "% ("@
            + decimal_digits(e.thresholds@[i].ok_count as nat) + "/"@ + decimal_digits(
            e.test_samples as nat,
        ) + ")"@,
        0 <= i < e.thresholds@.len() ==> markdown_lines(e)[6 + i] == "| OK@"@
            + e.thresholds@[i].threshold@ + "% | "@ + e.thresholds@[i].percent@ + "% ("@
            + decimal_digits(e.thresholds@[i].ok_count as nat) + "/"@ + decimal_digits(
            e.test_samples as nat,
        ) + ")"@ + " |"@,
{
    let n = e.thresholds@.len() as int;
    let lines = text_lines(e);
    assert(lines[0] == "Evaluation Results: "@ + e.model@);
    assert(lines[2] == "Test samples: "@ + decimal_digits(e.test_samples as nat));
    assert(lines[n + 7] == text_tail(e)[2]);
    assert(lines[n + 8] == text_tail(e)[3]);
    assert(lines[n + 9] == text_tail(e)[4]);
    assert(lines[n + 10] == text_tail(e)[5]);
    assert(lines[n + 13] == text_tail(e)[8]);
    assert(lines[n + 14] == text_tail(e)[9]);
    let table = markdown_lines(e);
    assert(table[n + 6] == markdown_tail(e)[0]);
    assert(table[n + 7] == markdown_tail(e)[1]);
    assert(table[n + 8] == markdown_tail(e)[2]);
    assert(table[n + 9] == markdown_tail(e)[3]);
    if 0 <= i < n {
        let t = e.thresholds@[i];
        assert(lines[5 + i] == text_line(t, e.test_samples));
        assert(table[6 + i] == table_row(t, e.test_samples));
        assert(text_line(t, e.test_samples) =~= "  OK@"@ + t.threshold@ + "%: "@ + t.percent@
            + "% ("@ + decimal_digits(t.ok_count as nat) + "/"@ + decimal_digits(
            e.test_samples as nat,
        ) + ")"@);
        assert(table_row(t, e.test_samples) =~= "| OK@"@ + t.threshold@ + "% | "@ + t.percent@
            + "% ("@ + decimal_digits(t.ok_count as nat) + "/"@ + decimal_digits(
            e.test_samples as nat,
        ) + ")"@ + " |"@);
    }
}

} // verus!

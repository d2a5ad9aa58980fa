//! Settings of a benchmark run.

use super::shared::{format_named, OutputFormat};
use crate::base::error::CoreError;
use crate::text::{copy_of, lowered};
use crate::workflows::benchmark::BenchmarkConfig;
use vstd::prelude::*;

verus! {

/// The arguments of a benchmark run.
#[derive(Debug)]
pub struct BenchmarkArgs {
    pub suite: String,
    pub iterations: usize,
    pub output_dir: String,
    pub criterion: bool,
    pub format: String,
}

/// What to run, and how to show it.
///
/// An output format that is not known is refused before anything runs.
pub fn run(args: &BenchmarkArgs, seed: u64) -> (result: Result<
    (BenchmarkConfig, OutputFormat),
    CoreError,
>)
    ensures
        result is Ok <==> format_named(args.format@) is Some,
        result matches Ok(plan) ==> {
            &&& plan.0.suite@ == args.suite@
            &&& plan.0.iterations == args.iterations
            &&& plan.0.output_dir@ == args.output_dir@
            &&& plan.0.criterion == args.criterion
            &&& plan.0.seed == seed
            &&& format_named(args.format@) == Some(plan.1)
        },
        result matches Err(e) ==> e.says(
            "unknown output format '"@ + lowered(args.format@)
                + "', expected: text, json, markdown"@,
        ),
{
    let format = match OutputFormat::from_name(args.format.as_str()) {
        Ok(format) => format,
        Err(e) => {
            return Err(e);
        },
    };
    let config = BenchmarkConfig {
        suite: copy_of(args.suite.as_str()),
        iterations: args.iterations,
        output_dir: copy_of(args.output_dir.as_str()),
        criterion: args.criterion,
        seed,
    };
    Ok((config, format))
}

} // verus!

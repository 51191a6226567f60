//! When the built-in sampler runs, and what it leaves behind.

use crate::text::{decimal, decimal_text, same_text, str_view};
use vstd::prelude::*;
use vstd::string::*;

verus! {

/// Samples per second: just beside a hundred, so that they do not fall into step with the
/// system's own clocks.
pub const SAMPLE_HZ: i32 = 99;

/// Whether the sampler runs, by the value of the variable `KEEP_SSE_PPROF`.
pub fn enabled(value: Option<&str>) -> (res: bool)
    ensures
        res == (str_view(value) == Some("1"@)),
{
    match value {
        Some(v) => same_text(v, "1"),
        None => false,
    }
}

/// The directory for the reports, by the value of the variable `KEEP_SSE_PPROF_DIR`.
pub fn dump_dir(value: Option<&str>) -> (res: String)
    ensures
        res@ == (match str_view(value) {
            Some(dir) => dir,
            None => "/tmp"@,
        }),
{
    match value {
        Some(dir) => dir.to_owned(),
        None => "/tmp".to_owned(),
    }
}

/// The names of the two files of a report that was made so many seconds after the epoch: the
/// flame graph's and the profile's.
pub fn report_names(timestamp: u64) -> (res: (String, String))
    ensures
        res.0@ == "keep-sse-"@ + decimal(timestamp as nat) + ".svg"@,
        res.1@ == "keep-sse-"@ + decimal(timestamp as nat) + ".pb"@,
{
    let number = decimal_text(timestamp);
    let mut graph = "keep-sse-".to_owned();
    graph.append(number.as_str());
    graph.append(".svg");
    let mut profile = "keep-sse-".to_owned();
    profile.append(number.as_str());
    profile.append(".pb");
    (graph, profile)
}

/// A step of the task that writes reports.
#[derive(Debug, Clone, Copy, PartialEq, Eq, Structural)]
pub enum DumpStep {
    /// It waits to be asked for a report.
    Await,
    /// It builds the report.
    BuildReport,
    /// It makes sure that the directory is there.
    MakeDirectory,
    /// It writes the flame graph.
    WriteGraph,
    /// It writes the profile.
    WriteProfile,
}

/// The step that comes after `step`, which went well or did not. Without a report or a directory
/// nothing is written; a flame graph that cannot be written does not stop the profile.
pub open spec fn next_step_of(step: DumpStep, went_well: bool) -> DumpStep {
    match step {
        DumpStep::Await => DumpStep::BuildReport,
        DumpStep::BuildReport => if went_well {
            DumpStep::MakeDirectory
        } else {
            DumpStep::Await
        },
        DumpStep::MakeDirectory => if went_well {
            DumpStep::WriteGraph
        } else {
            DumpStep::Await
        },
        DumpStep::WriteGraph => DumpStep::WriteProfile,
        DumpStep::WriteProfile => DumpStep::Await,
    }
}

/// Decides which step comes next.
pub fn next_step(step: DumpStep, went_well: bool) -> (res: DumpStep)
    ensures
        res == next_step_of(step, went_well),
{
    match step {
        DumpStep::Await => DumpStep::BuildReport,
        DumpStep::BuildReport => if went_well {
            DumpStep::MakeDirectory
        } else {
            DumpStep::Await
        },
        DumpStep::MakeDirectory => if went_well {
            DumpStep::WriteGraph
        } else {
            DumpStep::Await
        },
        DumpStep::WriteGraph => DumpStep::WriteProfile,
        DumpStep::WriteProfile => DumpStep::Await,
    }
}

/// The steps of a report that are still to come, at most.
pub open spec fn steps_left(step: DumpStep) -> nat {
    match step {
        DumpStep::Await => 0,
        DumpStep::BuildReport => 4,
        DumpStep::MakeDirectory => 3,
        DumpStep::WriteGraph => 2,
        DumpStep::WriteProfile => 1,
    }
}

/// Whatever goes wrong with a report, the task comes back to waiting for the next request.
pub proof fn a_report_ends(step: DumpStep, went_well: bool)
    requires
        step != DumpStep::Await,
    ensures
        steps_left(next_step_of(step, went_well)) < steps_left(step),
        steps_left(next_step_of(step, went_well)) == 0 <==> next_step_of(step, went_well)
            == DumpStep::Await,
{
}

} // verus!

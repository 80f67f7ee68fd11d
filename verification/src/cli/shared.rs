//! What `codspeed run` and `codspeed exec` have in common.
use vstd::prelude::*;

use super::experimental::ExperimentalArgs;
use crate::executor::config::WalltimeProfiler;

verus! {

/// The arguments of both commands.
#[derive(Debug)]
pub struct ExecAndRunSharedArgs {
    pub upload_url: Option<String>,
    pub token: Option<String>,
    /// The run that results are compared to.
    pub base: Option<String>,
    pub repository: Option<String>,
    pub working_directory: Option<String>,
    pub profile_folder: Option<String>,
    pub go_runner_version: Option<String>,
    pub perf_unwinding_mode: Option<String>,
    pub simulation_tool: Option<String>,
    pub walltime_profiler: Option<WalltimeProfiler>,
    pub skip_upload: bool,
    pub skip_run: bool,
    pub skip_setup: bool,
    pub allow_empty: bool,
    pub show_full_output: bool,
    pub cycle_estimation: bool,
    pub exclude_allocations: bool,
    pub simulation_track_subprocess: bool,
    pub experimental: ExperimentalArgs,
}

} // verus!

//! What an executor is told.
use vstd::prelude::*;

verus! {

/// What an executor is told about a run.
#[derive(Debug)]
pub struct ExecutorConfig {
    pub command: String,
    pub working_directory: Option<String>,
    pub enable_introspection: bool,
    pub enable_profiler: bool,
    pub allow_empty: bool,
}

/// The profilers that a walltime run can use.
#[derive(Debug, Clone, Copy, PartialEq, Eq, Structural)]
pub enum WalltimeProfiler {
    Perf,
    Samply,
}

} // verus!

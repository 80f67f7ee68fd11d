//! The modules that processes have loaded.
use std::collections::HashMap;

use vstd::prelude::*;

use super::by_pid::keys_of;
use super::module_symbols::ModuleSymbols;
use crate::runner_shared::unwind_data::{ProcessUnwindData, UnwindData};

verus! {

/// A module that was found while the samples of a profiler were read.
///
/// It holds what its file gives, and where each process that mapped it has it.
#[derive(Debug)]
pub struct LoadedModule {
    /// The symbols of the file.
    pub module_symbols: Option<ModuleSymbols>,
    /// The unwind tables of the file.
    pub unwind_data: Option<UnwindData>,
    /// Where each process has mapped the module.
    pub process_loaded_modules: HashMap<i32, ProcessLoadedModule>,
}

/// Where a process has mapped a module.
#[derive(Debug)]
pub struct ProcessLoadedModule {
    /// What is added to the addresses of the file to give those in the process.
    pub symbols_load_bias: Option<u64>,
    /// How the unwind tables apply in the process.
    pub process_unwind_data: Option<ProcessUnwindData>,
}

impl LoadedModule {
    /// The processes that have mapped the module.
    pub fn pids(&self) -> (r: Vec<i32>)
        ensures
            r@.no_duplicates(),
            r@.to_set() == self.process_loaded_modules@.dom(),
    {
        keys_of(&self.process_loaded_modules)
    }
}

} // verus!

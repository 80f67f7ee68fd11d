//! How processes refer to the symbols of a module.
use vstd::prelude::*;

verus! {

/// How the files that hold the symbols of a module for all processes end.
pub const SYMBOLS_MAP_SUFFIX: &'static str = "symbols.map";

/// Where a process has loaded the module whose symbols are stored under a key.
#[derive(Debug)]
pub struct MappedProcessModuleSymbols {
    pub perf_map_key: String,
    pub load_bias: u64,
}

pub struct MappedProcessModuleSymbolsView {
    pub perf_map_key: Seq<char>,
    pub load_bias: u64,
}

impl DeepView for MappedProcessModuleSymbols {
    type V = MappedProcessModuleSymbolsView;

    open spec fn deep_view(&self) -> MappedProcessModuleSymbolsView {
        MappedProcessModuleSymbolsView { perf_map_key: self.perf_map_key@, load_bias: self.load_bias }
    }
}

} // verus!

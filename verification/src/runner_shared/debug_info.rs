//! The source locations of the symbols of a module.
use vstd::prelude::*;

verus! {

/// Where a symbol is defined.
#[derive(Debug)]
pub struct DebugInfo {
    pub addr: u64,
    pub size: u64,
    pub name: String,
    pub file: String,
    pub line: Option<u32>,
}

pub struct DebugInfoView {
    pub addr: u64,
    pub size: u64,
    pub name: Seq<char>,
    pub file: Seq<char>,
    pub line: Option<u32>,
}

impl DeepView for DebugInfo {
    type V = DebugInfoView;

    open spec fn deep_view(&self) -> DebugInfoView {
        DebugInfoView {
            addr: self.addr,
            size: self.size,
            name: self.name@,
            file: self.file@,
            line: self.line,
        }
    }
}

/// Where the symbols of a module are defined.
#[derive(Debug)]
pub struct ModuleDebugInfo {
    pub object_path: String,
    pub load_bias: u64,
    /// The least address and the greatest end of the symbols.
    pub addr_bounds: (u64, u64),
    pub debug_infos: Vec<DebugInfo>,
}

pub struct ModuleDebugInfoView {
    pub object_path: Seq<char>,
    pub load_bias: u64,
    pub addr_bounds: (u64, u64),
    pub debug_infos: Seq<DebugInfoView>,
}

impl DeepView for ModuleDebugInfo {
    type V = ModuleDebugInfoView;

    open spec fn deep_view(&self) -> ModuleDebugInfoView {
        ModuleDebugInfoView {
            object_path: self.object_path@,
            load_bias: self.load_bias,
            addr_bounds: self.addr_bounds,
            debug_infos: self.debug_infos.deep_view(),
        }
    }
}

/// Where a process has loaded the module whose debug info is stored under a key.
#[derive(Debug)]
pub struct MappedProcessDebugInfo {
    pub debug_info_key: String,
    pub load_bias: u64,
}

pub struct MappedProcessDebugInfoView {
    pub debug_info_key: Seq<char>,
    pub load_bias: u64,
}

impl DeepView for MappedProcessDebugInfo {
    type V = MappedProcessDebugInfoView;

    open spec fn deep_view(&self) -> MappedProcessDebugInfoView {
        MappedProcessDebugInfoView { debug_info_key: self.debug_info_key@, load_bias: self.load_bias }
    }
}

} // verus!

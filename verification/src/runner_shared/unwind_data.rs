//! What is needed to unwind the stack in a module.
use std::ops::Range;

use vstd::prelude::*;

verus! {

/// The unwind tables of a module, the same for all processes.
#[derive(Debug)]
pub struct UnwindData {
    pub path: String,
    pub base_svma: u64,
    pub eh_frame_hdr: Option<Vec<u8>>,
    pub eh_frame_hdr_svma: Option<Range<u64>>,
    pub eh_frame: Vec<u8>,
    pub eh_frame_svma: Range<u64>,
}

pub struct UnwindDataView {
    pub path: Seq<char>,
    pub base_svma: u64,
    pub eh_frame_hdr: Option<Seq<u8>>,
    pub eh_frame_hdr_svma: Option<Range<u64>>,
    pub eh_frame: Seq<u8>,
    pub eh_frame_svma: Range<u64>,
}

impl DeepView for UnwindData {
    type V = UnwindDataView;

    open spec fn deep_view(&self) -> UnwindDataView {
        UnwindDataView {
            path: self.path@,
            base_svma: self.base_svma,
            eh_frame_hdr: self.eh_frame_hdr.deep_view(),
            eh_frame_hdr_svma: self.eh_frame_hdr_svma,
            eh_frame: self.eh_frame.deep_view(),
            eh_frame_svma: self.eh_frame_svma,
        }
    }
}

/// Where a process has mapped a module.
#[derive(Debug)]
pub struct ProcessUnwindData {
    pub timestamp: Option<u64>,
    pub avma_range: Range<u64>,
    pub base_avma: u64,
}

impl DeepView for ProcessUnwindData {
    type V = ProcessUnwindData;

    open spec fn deep_view(&self) -> ProcessUnwindData {
        *self
    }
}

impl Clone for ProcessUnwindData {
    fn clone(&self) -> (r: Self)
        ensures
            r == *self,
    {
        ProcessUnwindData {
            timestamp: self.timestamp,
            avma_range: Range { start: self.avma_range.start, end: self.avma_range.end },
            base_avma: self.base_avma,
        }
    }
}

/// Where a process has mapped the module whose unwind tables are stored under a key.
#[derive(Debug)]
pub struct MappedProcessUnwindData {
    pub unwind_data_key: String,
    pub inner: ProcessUnwindData,
}

pub struct MappedProcessUnwindDataView {
    pub unwind_data_key: Seq<char>,
    pub inner: ProcessUnwindData,
}

impl DeepView for MappedProcessUnwindData {
    type V = MappedProcessUnwindDataView;

    open spec fn deep_view(&self) -> MappedProcessUnwindDataView {
        MappedProcessUnwindDataView { unwind_data_key: self.unwind_data_key@, inner: self.inner }
    }
}

} // verus!

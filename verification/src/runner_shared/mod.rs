pub mod debug_info;
pub mod module_symbols;
pub mod perf_event;
pub mod unwind_data;

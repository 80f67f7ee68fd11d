pub mod by_pid;
pub mod debug_info;
pub mod jit_dump;
pub mod loaded_module;
pub mod module_symbols;
pub mod naming;
pub mod path_keys;
pub mod save_artifacts;
pub mod unwind_data;

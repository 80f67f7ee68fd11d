pub mod capabilities;
pub mod command;
pub mod debug_file;
pub mod detect_executable;
pub mod get_bench_command;
pub mod harvest_perf_maps_for_pids;
pub mod introspected_golang;
pub mod linux_sysctl;

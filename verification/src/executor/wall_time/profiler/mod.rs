pub mod perf;

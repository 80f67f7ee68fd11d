pub mod perf_maps;

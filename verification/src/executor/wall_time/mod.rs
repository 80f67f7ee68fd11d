pub mod executor;
pub mod isolation;
pub mod profiler;

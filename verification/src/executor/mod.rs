pub mod config;
pub mod helpers;
pub mod memory;
pub mod tool_status;
pub mod valgrind;
pub mod wall_time;

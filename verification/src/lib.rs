pub mod address;
pub mod bytes;
pub mod cli;
pub mod config;
pub mod elf;
pub mod exec_harness;
pub mod executor;
pub mod json;
pub mod list;
pub mod memtrack;
pub mod numeral;
pub mod path;
pub mod request_client;
pub mod run_environment;
pub mod runner_mode;
pub mod runner_shared;
pub mod shell_session_store;
pub mod sort;
pub mod style;
pub mod text;
pub mod text_map;
pub mod upload;

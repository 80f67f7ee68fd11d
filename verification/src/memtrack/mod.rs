pub mod bpf_token;
pub mod ebpf;
pub mod kernel;

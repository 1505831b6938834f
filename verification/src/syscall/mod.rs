//! The system call entry of the subsystem.
pub mod ebpf;

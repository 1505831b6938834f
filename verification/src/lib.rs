//! An in-kernel eBPF subsystem for a small RISC-V teaching kernel: a registry of
//! maps and programs addressed by integer handles, array and hash maps, a
//! relocating loader for BPF objects, and a breakpoint-based probe engine that
//! runs attached programs when a probed instruction is hit.
//!
//! Nothing here touches memory behind a raw address. Where the kernel has to
//! read or patch memory, run generated code or talk to a device, the library
//! takes the bytes it needs as arguments and returns what has to be done.
#![allow(non_camel_case_types)]

pub mod ebpf;
pub mod probe;
pub mod syscall;

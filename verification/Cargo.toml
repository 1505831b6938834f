[package]
name = "kernel_ebpf"
version = "0.1.0"
edition = "2021"
publish = false

[dependencies]
xmas-elf = "0.7.0"
riscv-decode = "0.2.3"
dyn-fmt = "0.3.0"
lazy_static = "1.4.0"
log = "0.4"

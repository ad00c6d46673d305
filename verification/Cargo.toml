[package]
name = "hvisor_boot"
version = "0.1.0"
edition = "2021"
publish = false

[dependencies]
aarch64-paging = "=0.11.0"
buddy_system_allocator = "=0.13.0"
lazy_static = "=1.5.1"
log = "=0.4.34"

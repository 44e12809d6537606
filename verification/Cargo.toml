[package]
name = "x86_paging"
version = "0.1.0"
edition = "2021"
publish = false

[dependencies]
bit_field = "0.9"
ux = "0.1"
os_bootinfo = "0.2"

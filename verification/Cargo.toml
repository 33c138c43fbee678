[package]
name = "lazuli"
version = "0.1.0"
edition = "2021"
publish = false

[dependencies]
tinyvec = "=1.13.3"
zstd = "=0.13.4"
twox-hash = "=2.1.5"
elf = "=0.7.4"
indexmap = "2"

[package]
name = "gear_opt"
version = "0.1.0"
edition = "2021"
publish = false

[dependencies]
rand = "0.8"
lru = "*"
elf = "*"
memmap2 = "*"
nix = { version = "*", features = ["uio", "process"] }

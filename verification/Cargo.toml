[package]
name = "pallet_kitties"
version = "0.1.0"
edition = "2021"
publish = false

[dependencies]
frame-support = "*"
frame-system = "*"
sp-core = "*"
sp-io = "*"
sp-runtime = "*"

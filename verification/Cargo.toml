[package]
name = "inplace_init"
version = "0.1.0"
edition = "2021"
publish = false

[dependencies]
scopeguard = "1.2"
pin-project = "1"

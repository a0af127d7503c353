[package]
name = "command_runner"
version = "0.1.0"
edition = "2021"
publish = false

[dependencies]
anyhow = "1"
crossbeam = "0.8"
encoding_rs = "0.8"

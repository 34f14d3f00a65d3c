[package]
name = "jsbsim_harness"
version = "0.1.0"
edition = "2021"
publish = false

[dependencies]
flate2 = "=1.1.10"
anyhow = "=1.0.104"
wasmtime = "=46.0.3"

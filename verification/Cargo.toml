[package]
name = "mk_pass"
version = "0.1.0"
edition = "2021"
publish = false

[dependencies]
rand = "0.9"
clap = { version = "4", features = ["derive"] }
pyo3 = "0.23"
napi = "2"
napi-derive = "2"

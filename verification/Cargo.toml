[package]
name = "rustpynet"
version = "0.1.0"
edition = "2021"
publish = false

[dependencies]
rand = "0.8"
pyo3 = { version = "*", features = ["auto-initialize"] }
lazy_static = "1"

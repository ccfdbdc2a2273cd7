[package]
name = "metaball"
version = "0.1.0"
edition = "2021"
publish = false

[dependencies]
pyo3 = { version = "0.20", features = ["extension-module"] }
rand = "0.8"
rand_chacha = "0.3"

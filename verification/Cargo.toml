[package]
name = "columnar_bridge"
version = "0.1.0"
edition = "2021"
publish = false

[dependencies]
ciborium = "*"
pyo3 = "*"

[package]
name = "cel_bridge"
version = "0.1.0"
edition = "2021"
publish = false

[dependencies]
chrono = "0.4"
log = "0.4"
pyo3 = { version = "0.25", features = ["chrono", "extension-module"] }
pyo3-log = "0.12"

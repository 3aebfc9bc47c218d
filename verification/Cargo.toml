[package]
name = "loro_containers"
version = "0.1.0"
edition = "2021"
publish = false

[dependencies]
loro = "1"
loro-internal = "1"
fxhash = "0.2"
pyo3 = { version = "0.23", features = ["extension-module"] }

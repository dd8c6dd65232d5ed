[package]
name = "ddb_decode"
version = "0.1.0"
edition = "2021"
publish = false

[dependencies]
serde_json = { version = "1", default-features = false, features = ["std", "float_roundtrip"] }
pyo3-ffi = "*"

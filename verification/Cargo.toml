[package]
name = "pyfastgrep"
version = "0.1.0"
edition = "2021"
publish = false

[dependencies]
grep = "0.3"
ignore = "0.4"
globset = "0.4"
rayon = "1"
crossbeam-channel = "0.5"
tree-sitter = "0.20"
serde = { version = "1", features = ["derive"] }
serde_json = "1"
pyo3 = "0.26"

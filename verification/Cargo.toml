[package]
name = "koneko"
version = "0.1.0"
edition = "2021"
publish = false

[dependencies]
serde_json = "*"
regex = "*"
crossterm = "*"
dirs = "*"
pyo3 = "*"
scopeguard = "*"

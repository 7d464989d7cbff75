[package]
name = "logged_kv"
version = "0.1.0"
edition = "2021"
publish = false

[dependencies]
redb = "*"
chrono = "0.4"
pyo3 = "*"
polodb_core = "*"

[package]
name = "alluka"
version = "0.1.0"
edition = "2021"
publish = false

[dependencies]
async-oneshot = "*"
tokio = { version = "*", default-features = false, features = ["rt-multi-thread"] }
pyo3 = "*"

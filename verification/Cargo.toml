[package]
name = "pymulter"
version = "0.1.0"
edition = "2021"
publish = false

[dependencies]
bytes = "1"
futures = "0.3"
multer = "3"
pyo3 = { version = "0.25", features = ["abi3-py39", "extension-module"] }
pyo3-async-runtimes = { version = "0.25", features = ["tokio-runtime"] }
tokio = { version = "1", features = ["sync", "rt-multi-thread"] }

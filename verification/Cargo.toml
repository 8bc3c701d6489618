[package]
name = "sarfimax"
version = "0.1.0"
edition = "2021"
publish = false

[dependencies]
argmin = "0.10"
argmin-math = { version = "0.4", features = ["vec"] }
chrono = "0.4"
numpy = "0.23"
pyo3 = "0.23"
reqwest = { version = "0.12", default-features = false, features = ["json", "blocking", "rustls-tls"] }
serde = { version = "1", features = ["derive"] }
serde_json = "1"
statrs = "0.18"
tokio = { version = "1", features = ["rt-multi-thread"] }

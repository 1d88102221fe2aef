[package]
name = "sample_pipeline"
version = "0.1.0"
edition = "2021"
publish = false

[dependencies]
tokenizers = "=0.23.2"
serde = { version = "=1.0.229", features = ["derive"] }
serde_json = "=1.0.151"
pyo3 = "=0.29.3"
numpy = "=0.29.0"

[dev-dependencies]
ahash = "=0.8.12"

[package]
name = "batch_pipeline"
version = "0.1.0"
edition = "2021"
publish = false

[dependencies]
chrono = { version = "=0.4.39", default-features = false }
datafusion = { version = "=37.1.0", default-features = false, features = ["parquet", "pyarrow"] }
parquet = { version = "=51.0.0", default-features = false, features = ["arrow", "async"] }
pyo3 = { version = "=0.20.3", features = ["extension-module"] }
pyo3-asyncio = { version = "=0.20.0", features = ["tokio-runtime"] }
thiserror = "=1.0.69"
tokio = { version = "=1.54.1", features = ["rt-multi-thread", "fs", "io-util"] }
tokio-stream = "=0.1.19"

[dev-dependencies]
bytes = "=1.12.1"

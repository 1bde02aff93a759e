[package]
name = "neural_bridge"
version = "0.1.0"
edition = "2021"
publish = false

[dependencies]
anyhow = "*"
chrono = { version = "*", features = ["serde"] }
futures-util = "*"
parking_lot = "*"
pyo3 = "*"
redis = { version = "*", features = ["tokio-comp"] }
serde = { version = "*", features = ["derive"] }
serde_json = "*"
tokio = { version = "*", features = ["sync", "rt", "macros", "time"] }
tokio-tungstenite = "*"
tracing = "*"

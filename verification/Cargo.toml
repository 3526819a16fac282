[package]
name = "tektii_gateway_core"
version = "0.1.0"
edition = "2021"
publish = false

[dependencies]
async-trait = "*"
axum = "*"
chrono = { version = "*", features = ["serde"] }
dashmap = "*"
futures-util = "*"
metrics = "*"
metrics-exporter-prometheus = { version = "*", default-features = false }
regex = "*"
reqwest = { version = "*", default-features = false, features = ["json"] }
rust_decimal = { version = "*", features = ["serde"] }
secrecy = "*"
serde = { version = "*", features = ["derive"] }
serde_json = "*"
smallvec = "1"
subtle = "*"
thiserror = "*"
tokio = { version = "*", features = ["sync", "time", "fs", "rt"] }
tokio-util = "*"
tracing = "*"
utoipa = { version = "*", features = ["chrono", "decimal"] }
utoipa-axum = "*"
uuid = { version = "*", features = ["v4"] }
validator = { version = "*", features = ["derive"] }

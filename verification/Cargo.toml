[package]
name = "chapterhousedb"
version = "0.1.0"
edition = "2021"
publish = false

[dependencies]
anyhow = "*"
arrow = "*"
bytes = "*"
chrono = "*"
futures = "*"
parquet = "*"
serde = { version = "*", features = ["derive"] }
serde_json = "*"
thiserror = "*"
tokio = { version = "*", features = ["full"] }
tokio-util = "*"
tracing = "*"
uuid = { version = "*", features = ["v4"] }

[package]
name = "lowart_gateway"
version = "0.1.0"
edition = "2021"
publish = false

[dependencies]
aes-gcm = "=0.11.1"
anyhow = "*"
async-trait = "*"
axum = "*"
base64 = "=0.22.1"
chrono = "*"
dashmap = "*"
futures = "*"
getrandom = "=0.2.17"
hyper = "*"
hyper-util = "*"
metrics = "*"
metrics-exporter-prometheus = "*"
moka = { version = "*", features = ["future"] }
reqwest = { version = "*", default-features = false, features = ["json", "stream"] }
rhai = { version = "=1.26.1", features = ["serde", "sync"] }
serde = { version = "*", features = ["derive"] }
serde_json = "=1.0.151"
sqlx = { version = "*", default-features = false, features = ["sqlite", "runtime-tokio", "chrono", "macros"] }
thiserror = "*"
tiktoken-rs = "=0.12.1"
tokio = { version = "*", features = ["full"] }
tower = "*"
tower-http = { version = "*", features = ["cors"] }
tracing = "*"
tracing-subscriber = "*"
uuid = { version = "=1.27.0", features = ["v4"] }

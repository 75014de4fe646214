[package]
name = "axum_admin"
version = "0.1.0"
edition = "2021"
publish = false

[dependencies]
scru128 = "=2.8.1"
chrono = "=0.4.45"
jsonwebtoken = "=8.3.0"
serde = { version = "=1.0.229", features = ["derive"] }
serde_json = { version = "=1.0.154", features = ["preserve_order"] }
toml = "=0.7.8"
once_cell = "=1.21.4"
anyhow = "=1.0.104"
tracing = "=0.1.44"
tracing-subscriber = { version = "=0.3.23", features = ["env-filter"] }
tracing-appender = "=0.2.5"
tokio = { version = "=1.54.1", features = ["full"] }
axum = { version = "=0.6.20", features = ["headers"] }
hyper = "=0.14.32"
bytes = "=1.12.1"
headers = "=0.3.9"
sysinfo = "=0.29.11"
skytable = { version = "=0.7.5", features = ["aio"] }
delay_timer = "0.11"
tower-http = { version = "0.4", features = ["fs", "cors", "compression-gzip"] }
axum-server = { version = "0.5", features = ["tls-rustls"] }

[package]
name = "ip_killswitch"
version = "1.0.0"
edition = "2021"
publish = false

[dependencies]
anyhow = "1"
chrono = "0.4"
cron = "0.12"
libc = "0.2"
once_cell = "1"
parking_lot = "0.12"
regex = "1"
reqwest = { version = "0.12", default-features = false, features = ["rustls-tls"] }
serde = { version = "1", features = ["derive"] }
serde_json = "1"
sysinfo = "0.32"
tokio = { version = "1", features = ["full"] }
tracing = "0.1"
tracing-appender = "0.2"
tracing-subscriber = { version = "0.3", features = ["env-filter"] }
uuid = { version = "1", features = ["v4"] }

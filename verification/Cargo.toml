[package]
name = "tondi_seeder"
version = "0.1.0"
edition = "2021"
publish = false

[dependencies]
dashmap = "5"
trust-dns-proto = "0.23"
chrono = "0.4"
serde = { version = "1", features = ["derive"] }
serde_json = "1"
tokio = { version = "1", features = ["full"] }
clap = { version = "4", features = ["derive"] }
tracing = "0.1"
tracing-subscriber = { version = "0.3", features = ["env-filter", "time"] }
tracing-appender = "0.2"
thiserror = "1"
toml = "0.8"
once_cell = "1"
rand = "0.8"
sysinfo = "0.29"
futures = "0.3"

[package]
name = "tokimo-bus"
version = "0.1.0"
edition = "2021"
publish = false

[dependencies]
dashmap = "=6.2.1"
uuid = { version = "=1.29.0", features = ["v4"] }
tokio = { version = "=1.54.1", features = ["full"] }
serde = { version = "=1.0.229", features = ["derive"] }
rmp-serde = "=1.3.1"
serde_json = "=1.0.154"
thiserror = "=2.0.21"
toml = "=0.8.23"
tracing = "=0.1.44"
anyhow = "=1.0.104"
clap = { version = "=4.6.7", features = ["derive", "env"] }
reqwest = { version = "=0.12.28", default-features = false, features = ["json"] }
axum = "=0.8.9"
parking_lot = "=0.12.5"
chrono = "=0.4.45"
dotenvy = "=0.15.7"
sea-orm = { version = "1", default-features = false, features = ["macros", "with-chrono", "with-uuid", "sqlx-postgres", "runtime-tokio-rustls"] }

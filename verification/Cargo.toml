[package]
name = "postgresql_trino_gateway"
version = "0.1.0"
edition = "2021"
publish = false

[dependencies]
anyhow = "1"
async-stream = "0.3"
async-trait = "0.1"
bytes = "1"
chrono = "0.4"
chrono-tz = "0.10"
clap = { version = "4", features = ["derive"] }
dashmap = "6"
futures = "0.3"
pgwire = "*"
postgres-types = { version = "0.2", features = ["with-chrono-0_4"] }
rand = "0.9"
rust_decimal = { version = "1", features = ["db-postgres"] }
rustls-pemfile = "2"
rustls-pki-types = "1"
serde_json = "1"
sqlparser = { version = "0.59", features = ["visitor"] }
tokio = { version = "1", features = ["full"] }
tracing = "0.1"
tracing-subscriber = "0.3"
trino-rust-client = "*"

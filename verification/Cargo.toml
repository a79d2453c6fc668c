[package]
name = "meilibridge"
version = "0.1.0"
edition = "2021"
publish = false

[dependencies]
serde = { version = "1", features = ["derive"] }
serde_json = "1"
serde_yaml = "0.9"
chrono = { version = "0.4", features = ["serde"] }
uuid = { version = "1", features = ["v4", "serde"] }
rand = "0.8"
tokio = { version = "1", features = ["full"] }
tracing = "0.1"
tracing-subscriber = { version = "0.3", features = ["env-filter", "json"] }
clap = { version = "4", features = ["derive"] }
prometheus = "0.13"
lazy_static = "1"
thiserror = "1"
async-trait = "0.1"
futures = "0.3"
redis = { version = "0.23", features = ["tokio-comp"] }
circuit_breaker = "*"
config = "0.13"
meilisearch-sdk = "*"

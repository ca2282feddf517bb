[package]
name = "contratos"
version = "0.1.0"
edition = "2021"
publish = false

[dependencies]
anyhow = "=1.0.104"
chrono = "=0.4.45"
clap = { version = "=4.6.7", features = ["derive", "env"] }
env_logger = "=0.11.11"
governor = "=0.10.4"
log = "=0.4.34"
meilisearch-sdk = "=0.33.0"
reqwest = { version = "=0.13.5", features = ["form", "json"] }
serde = { version = "=1.0.229", features = ["derive"] }
serde_json = "=1.0.151"
sqlx = { version = "=0.9.0", features = ["runtime-tokio", "postgres", "chrono"] }
tokio = { version = "=1.53.2", features = ["macros", "rt-multi-thread", "sync", "time", "signal"] }

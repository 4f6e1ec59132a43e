[package]
name = "mongo-to-sqlite"
version = "0.1.0"
edition = "2021"
publish = false

[dependencies]
anyhow = "1"
bson = { version = "2", features = ["chrono-0_4"] }
chrono = "0.4"
clap = { version = "4", features = ["derive", "env"] }
colored = "2"
dotenvy = "0.15"
futures = "0.3"
indicatif = "0.17"
libsql = "*"
mongodb = "2.8"
serde_json = { version = "1", features = ["preserve_order"] }
thiserror = "1"
tokio = { version = "1", features = ["macros", "rt-multi-thread"] }
tracing = "0.1"
tracing-subscriber = { version = "0.3", features = ["env-filter"] }

[package]
name = "isdt_charger"
version = "0.1.0"
edition = "2021"
publish = false

[dependencies]
uuid = { version = "1", features = ["v4"] }
serde = { version = "1", features = ["derive"] }
serde_json = "1"
thiserror = "2"
tokio = { version = "1", features = ["full"] }
btleplug = "*"
futures = "0.3"
clap = { version = "4", features = ["derive"] }
anyhow = "1"
rustyline = "*"
shell-words = "1"
tracing = "0.1"
tracing-subscriber = { version = "0.3", features = ["env-filter"] }
async-trait = "0.1"

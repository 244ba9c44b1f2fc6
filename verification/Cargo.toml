[package]
name = "protonmail_client"
version = "0.1.0"
edition = "2021"
publish = false

[dependencies]
anyhow = "*"
async-imap = "*"
chrono = "*"
clap = { version = "*", features = ["derive"] }
dotenvy = "*"
email-extract = "*"
futures = "*"
rustls = { version = "*", features = ["ring"] }
serde_json = "*"
thiserror = "*"
tokio = { version = "*", features = ["full"] }
tokio-rustls = "*"
tokio-util = { version = "*", features = ["compat"] }
tracing = "*"
tracing-subscriber = { version = "*", features = ["env-filter"] }

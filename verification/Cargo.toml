[package]
name = "chat_rs"
version = "0.1.0"
edition = "2021"
publish = false

[dependencies]
uuid = { version = "1", features = ["v4"] }
chrono = "0.4"
email_address = "*"
indexmap = "2"
serde = { version = "1", features = ["derive"] }
serde_json = "1"
rand = "*"
dirs = "*"
anyhow = "1"
thiserror = "*"
tokio = { version = "1", features = ["rt", "sync", "time", "macros"] }

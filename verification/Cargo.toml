[package]
name = "tomcat_chat"
version = "0.1.0"
edition = "2021"
publish = false

[dependencies]
shell-words = "1"
serde = { version = "1", features = ["derive"] }
serde_json = "1"
serde_yaml = "0.9"
chrono = "0.4"
dirs = "*"
fs2 = "0.4"
parking_lot = "0.12"
async-trait = "0.1"
thiserror = "1"
tracing = "0.1"
tokio = { version = "1", features = ["rt", "sync", "time", "macros"] }
tokio-util = "0.7"
rustyline = "*"

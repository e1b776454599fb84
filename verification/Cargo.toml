[package]
name = "request_reporter"
version = "0.1.0"
edition = "2021"
publish = false

[dependencies]
axum = "0.7"
axum-macros = "0.4"
chrono = "0.4"
clap = { version = "4", features = ["derive"] }
csv = "1"
http = "1"
http-body-util = "0.1"
schemars = "0.8"
serde = { version = "1", features = ["derive"] }
serde_json = "1"
serde_yaml = "0.9"
strum_macros = "0.26"
tokio = { version = "1", features = ["full"] }
tracing = "0.1"
tracing-subscriber = "0.3"

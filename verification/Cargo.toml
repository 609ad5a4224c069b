[package]
name = "lynx"
version = "0.1.0"
edition = "2021"
publish = false

[dependencies]
glob = "=0.3.4"
regex = "=1.13.1"
rand = "=0.8.8"
http = "=1.5.0"
bytes = "=1.12.1"
serde = { version = "=1.0.229", features = ["derive"] }
serde_json = "=1.0.154"
tokio = { version = "=1.54.1", features = ["time", "rt", "macros", "net"] }
axum = "=0.8.9"
http-body-util = "=0.1.5"
anyhow = "=1.0.104"
chrono = { version = "0.4", default-features = false, features = ["clock"] }

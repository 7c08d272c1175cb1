[package]
name = "tiktok_proxy"
version = "0.1.0"
edition = "2021"
publish = false

[dependencies]
url = "2"
urlencoding = "2"
serde = { version = "1", features = ["derive"] }
axum = "0.7"
reqwest = { version = "0.12", default-features = false, features = ["cookies", "stream", "rustls-tls"] }
askama = "0.12"
once_cell = "1"
tracing = "0.1"

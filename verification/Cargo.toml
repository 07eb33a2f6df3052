[package]
name = "mm_gateway"
version = "0.1.0"
edition = "2021"
publish = false

[dependencies]
serde_json = "1"
parking_lot = "0.12"
serde = { version = "1", features = ["derive"] }
serde_yaml = "0.9"
anyhow = "1"
tracing = "0.1"
tokio = { version = "1", features = ["full"] }
axum = "0.7"
futures-util = "0.3"
tokio-tungstenite = { version = "0.21", features = ["rustls-tls-webpki-roots"] }
reqwest = { version = "0.12", default-features = false, features = ["json", "rustls-tls"] }

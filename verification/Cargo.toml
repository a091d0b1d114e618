[package]
name = "polybot"
version = "0.1.0"
edition = "2021"
publish = false

[dependencies]
rust_decimal = "1"
chrono = "0.4"
serde = { version = "1", features = ["derive"] }
serde_json = "1"
anyhow = "1"
tokio = { version = "1", features = ["full"] }
reqwest = { version = "0.12", default-features = false, features = ["json", "rustls-tls"] }
tokio-tungstenite = { version = "0.24", features = ["rustls-tls-webpki-roots"] }
futures-util = "0.3"
ratatui = "0.29"
crossterm = "0.28"
tracing = "0.1"
tracing-subscriber = "0.3"

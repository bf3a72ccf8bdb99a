[package]
name = "deliveries"
version = "0.1.0"
edition = "2021"
publish = false

[dependencies]
reqwest = { version = "0.12", default-features = false, features = ["blocking", "json", "rustls-tls"] }
serde = { version = "1", features = ["derive"] }
serde_json = "1"
headless_chrome = "1"
gtk4 = "0.8"
async-channel = "2"

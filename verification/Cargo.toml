[package]
name = "trojan_proxy"
version = "0.1.0"
edition = "2021"
publish = false

[dependencies]
sha2 = "0.10"
tokio = { version = "1", features = ["full"] }
tokio-rustls = "0.24"
rustls-pemfile = "1"
chrono = "0.4"
toml = "0.8"
serde = { version = "1", features = ["derive"] }

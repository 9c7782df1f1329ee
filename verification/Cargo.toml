[package]
name = "hydra"
version = "0.1.0"
edition = "2021"
publish = false

[dependencies]
brotli2 = "0.3"
futures = "0.3"
hyper = "0.13"
hyper-proxy = { version = "0.6", default-features = false, features = ["rustls"] }
serde = { version = "1", features = ["derive"] }
serde_bytes = "0.11"
serde_json = "1"
tokio = { version = "0.2", features = ["full"] }
tokio-retry = "0.2"
typed-headers = "0.2"
url = "2"
xz2 = "0.1"

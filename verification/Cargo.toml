[package]
name = "mc_proxy"
version = "0.1.0"
edition = "2021"
publish = false

[dependencies]
aes = "0.8"
base64 = "=0.22.1"
cfb8 = "0.8"
lazy_static = "=1.5.1"
rand = "=0.8.8"
rsa = "=0.9.10"
serde = { version = "=1.0.229", features = ["derive"] }
serde_json = "=1.0.154"
sha1 = "0.10"
tokio = { version = "=1.54.1", features = ["full"] }

[package]
name = "runway"
version = "0.1.0"
edition = "2021"
publish = false

[dependencies]
anyhow = "1"
arl = "=0.2.0"
async-trait = "0.1"
blake3 = "=1.8.7"
futures = "0.3"
ignore = "=0.4.34"
log = "0.4"
once_cell = "1"
rbx_cookie = "=0.1.5"
rbxcloud = "=0.6.2"
reqwest = { version = "=0.11.27", default-features = false, features = ["rustls-tls"] }
secrecy = "=0.8.0"
serde = { version = "1", features = ["derive"] }
serde_json = "1"
thiserror = "1"
tokio = { version = "1", features = ["time"] }

[package]
name = "drill"
version = "0.1.0"
edition = "2021"
publish = false

[dependencies]
base64 = "=0.22.1"
serde_json = "=1.0.154"
similar = "=2.7.0"
syntect = { version = "=5.3.0", default-features = false, features = ["default-fancy"] }
serde = { version = "=1.0.229", features = ["derive"] }
reqwest = { version = "=0.12.28", default-features = false, features = ["blocking", "json", "rustls-tls"] }
ratatui = "=0.29.0"
crossterm = "=0.28.1"
portable-pty = "=0.9.0"
tempfile = "=3.27.0"
libc = "=0.2.191"
tokio = { version = "=1.54.1", features = ["rt-multi-thread"] }
futures = "=0.3.34"
cpal = "=0.18.2"

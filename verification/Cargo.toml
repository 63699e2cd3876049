[package]
name = "torii"
version = "0.1.0"
edition = "2021"
publish = false

[dependencies]
anyhow = "=1.0.104"
uuid = { version = "=1.29.0", features = ["v7"] }
tokio-util = "=0.7.20"
serde = { version = "=1.0.229", features = ["derive"] }
serde_json = "=1.0.154"
serde_urlencoded = "*"
url = "=2.5.8"
base64 = "=0.23.1"
chrono = "=0.4.45"
http = "=1.5.0"
cookie = "=0.18.2"
quick-xml = "=0.42.0"
x509-parser = "=0.18.1"
reqwest = { version = "=0.13.5", default-features = false }
bytes = "*"

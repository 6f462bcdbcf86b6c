[package]
name = "omnihook"
version = "0.1.0"
edition = "2021"
publish = false

[dependencies]
hex = "=0.4.3"
hmac = "=0.12.1"
sha2 = "=0.10.9"
regex = "=1.13.1"
reqwest = { version = "=0.12.28", default-features = false, features = ["rustls-tls"] }
reqwest-middleware = "=0.4.2"
serde_json = "=1.0.154"
thiserror = "=2.0.21"
url = "=2.5.8"

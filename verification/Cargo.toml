[package]
name = "metamorphosis"
version = "0.1.0"
edition = "2021"
publish = false

[dependencies]
serde = { version = "=1.0.229", features = ["derive"] }
serde_json = "=1.0.151"
chrono = { version = "=0.4.45", features = ["serde"] }
data-encoding = "=2.11.1"
zip = "=8.6.0"
ring = "=0.17.14"
reqwest = { version = "=0.12.28", default-features = false, features = ["json", "rustls-tls"] }
reqwest-middleware = "=0.4.2"
http-cache-reqwest = "=0.16.0"

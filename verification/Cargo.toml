[package]
name = "gproxy"
version = "0.1.0"
edition = "2021"
publish = false

[dependencies]
async-trait = "0.1"
bytes = "1"
chrono = "0.4"
config = "*"
instant-acme = "*"
jsonwebtoken = "9"
openssl = "0.10"
pingora = { version = "*", features = ["proxy", "openssl"] }
prometheus = "0.13"
rand = "0.8"
reqwest = { version = "0.12", features = ["json"] }
rustls-pki-types = "1"
serde = { version = "1", features = ["derive"] }
serde_json = { version = "1", features = ["float_roundtrip"] }
thiserror = "1"
tokio = { version = "1", features = ["full"] }
tracing = "0.1"
tracing-subscriber = { version = "0.3", features = ["env-filter"] }
url = "2"
urlencoding = "2"

[package]
name = "autodns"
version = "0.1.0"
edition = "2021"
publish = false

[dependencies]
anyhow = "=1.0.104"
base64 = "=0.22.1"
chrono = "=0.4.45"
dirs = "=7.0.0"
hickory-proto = "=0.26.3"
idna = "=1.1.0"
moka = { version = "=0.12.16", features = ["sync"] }
parking_lot = "=0.12.5"
rcgen = "0.12"
rustls-pemfile = "2"
serde = { version = "=1.0.229", features = ["derive"] }
serde_json = "=1.0.154"
tokio = { version = "=1.54.1", features = ["rt", "rt-multi-thread", "sync", "time", "net", "io-util", "macros"] }
url = "=2.5.8"

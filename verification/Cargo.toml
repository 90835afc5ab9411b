[package]
name = "kenja_spider"
version = "0.1.0"
edition = "2021"
publish = false

[dependencies]
anyhow = "1"
blake3 = "1"
bytes = "1"
clap = { version = "4", features = ["derive"] }
dotenvy = "0.15"
fantoccini = { version = "*", default-features = false, features = ["rustls-tls"] }
futures = "0.3"
hex = "0.4"
http = "1"
image = { version = "0.25", default-features = false, features = ["jpeg", "png", "webp"] }
mongodb = "3"
reqwest = { version = "0.12", default-features = false, features = ["rustls-tls"] }
serde = { version = "1", features = ["derive"] }
serde_json = "1"
tokio = { version = "1", features = ["full"] }
tracing = "0.1"
tracing-subscriber = "0.3"
url = "2"

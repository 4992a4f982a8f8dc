[package]
name = "price_crawler"
version = "0.1.0"
edition = "2021"
publish = false

[dependencies]
serde_json = "1"
rand = "0.8"
serde = { version = "1", features = ["derive"] }
anyhow = "1"
async-trait = "0.1"
futures = "0.3"
indicatif = "0.17"
itertools = "0.12"
reqwest = { version = "0.11", default-features = false, features = ["json", "rustls-tls"] }
tokio = { version = "1", features = ["full"] }
tokio-stream = "0.1"
tera = { version = "1", default-features = false }
async-sqlite = "*"

[package]
name = "grat_core"
version = "0.1.0"
edition = "2021"
publish = false

[dependencies]
stellar-strkey = "=1.0.0"
stellar-xdr = { version = "22", features = ["curr", "base64", "serde"] }
soroban-env-host = "22"
base64 = "=0.22.1"
sha2 = "=0.10.9"
hex = "=0.4.3"
url = "=2.5.8"
directories = "=5.0.1"
serde = { version = "=1.0.229", features = ["derive"] }
serde_json = "=1.0.154"
toml = "=0.8.23"
owo-colors = "=4.4.0"
pulldown-cmark = "=0.13.6"
unicode-width = "=0.2.3"
crossterm = "=0.29.0"
anyhow = "=1.0.104"
dashmap = "=6.2.1"
sled = "=0.34.7"
bincode = "=1.3.3"
tokio = { version = "=1.54.1", features = ["rt", "rt-multi-thread"] }
reqwest = { version = "=0.12.28", default-features = false, features = ["rustls-tls"] }

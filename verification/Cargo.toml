[package]
name = "paracas"
version = "0.1.0"
edition = "2021"
publish = false

[dependencies]
lzma-rs = "*"
uuid = { version = "*", features = ["v4"] }
chrono = "*"
tokio = { version = "*", features = ["rt-multi-thread", "macros", "time", "sync"] }
reqwest = { version = "*", default-features = false, features = ["gzip", "rustls-tls"] }
futures = "*"
serde = { version = "*", features = ["derive"] }
serde_json = "*"
clap = { version = "*", features = ["derive"] }
anyhow = "*"
directories = "*"
thiserror = "*"
bytes = "*"
indicatif = "*"

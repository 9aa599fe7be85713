[package]
name = "nexus_client"
version = "0.1.0"
edition = "2021"
publish = false

[dependencies]
anyhow = "1"
clap = { version = "4", features = ["derive", "env"] }
dirs = "*"
env_logger = "*"
futures-util = "0.3"
log = "0.4"
netrc-rs = "*"
reqwest = { version = "0.11", default-features = false, features = ["stream", "rustls-tls"] }
serde = { version = "1", features = ["derive"] }
serde_json = "1"
serde-xml-rs = "*"
tokio = { version = "1", features = ["full"] }
url = "2"
walkdir = "2"

[package]
name = "ga4gh_sdk"
version = "0.1.0"
edition = "2021"
publish = false

[dependencies]
base64 = "*"
url = "*"
serde = { version = "*", features = ["derive"] }
serde_json = "*"
reqwest = { version = "*", default-features = false, features = ["rustls-tls", "json"] }
tokio = { version = "*", features = ["macros", "rt-multi-thread"] }
libloading = "*"
dirs = "*"
log = "*"
env_logger = "*"
clap = "*"
anyhow = "*"

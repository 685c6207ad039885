[package]
name = "deitos_upload"
version = "0.1.0"
edition = "2021"
publish = false

[dependencies]
base64 = "=0.23.1"
clap = { version = "=4.6.7", features = ["derive"] }
reqwest = { version = "=0.13.5", default-features = false, features = ["multipart", "stream"] }
serde = { version = "=1.0.229", features = ["derive"] }
sha2 = "=0.11.1"
sp-core = "=43.0.0"
subxt = { version = "*", default-features = false }
tokio = { version = "=1.54.1", features = ["full"] }
tokio-util = { version = "=0.7.20", features = ["io"] }

[dev-dependencies]
serde_json = "=1.0.154"

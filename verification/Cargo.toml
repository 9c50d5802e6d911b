[package]
name = "shellmaster"
version = "0.1.0"
edition = "2021"
publish = false

[dependencies]
anyhow = "1"
async-http-proxy = { version = "1", features = ["runtime-tokio", "basic-auth"] }
chrono = "0.4"
dirs = "*"
futures = "0.3"
notify = "*"
once_cell = "1"
reqwest = { version = "0.12", default-features = false, features = ["json", "rustls-tls", "stream"] }
russh = "*"
russh-sftp = "*"
serde = { version = "1", features = ["derive"] }
serde_json = "1"
thiserror = "*"
tokio = { version = "1", features = ["full"] }
tokio-socks = "0.5"
tracing = "0.1"
uuid = { version = "1", features = ["v4"] }

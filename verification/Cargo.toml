[package]
name = "moq"
version = "0.1.0"
edition = "2021"
publish = false

[dependencies]
anyhow = "1"
async-trait = "0.1"
bytes = "1"
clap = { version = "4", features = ["derive"] }
env_logger = "*"
log = "0.4"
quinn = "*"
reqwest = { version = "*", default-features = false, features = ["json", "rustls-tls"] }
rustls = "*"
rustls-native-certs = "*"
serde = { version = "1", features = ["derive"] }
tokio = { version = "1", features = ["full"] }
url = "2"
uuid = { version = "1", features = ["v4"] }
webtransport-generic = "*"
webtransport-quinn = "*"

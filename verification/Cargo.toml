[package]
name = "agent_lib"
version = "0.1.0"
edition = "2021"
publish = false

[dependencies]
anyhow = "=1.0.104"
async-mutex = "=1.4.1"
blake3 = "=1.8.7"
duct = "=0.13.7"
futures = "=0.3.34"
regex = "=1.13.1"
rustls = { version = "=0.21.12", features = ["dangerous_configuration"] }
rustls-pemfile = "=1.0.4"
serde = { version = "=1.0.229", features = ["derive"] }
serde_yaml = "=0.9.34"
structopt = "=0.3.26"
tarpc = { version = "=0.33.0", features = ["full"] }
thiserror = "=1.0.69"
tokio = { version = "=1.53.2", features = ["full"] }
tokio-rustls = "=0.24.1"
tokio-serde = { version = "=0.8.0", features = ["bincode"] }
tokio-util = { version = "=0.7.19", features = ["codec"] }
walkdir = "=2.5.0"
zstd = "=0.13.3"

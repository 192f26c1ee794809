[package]
name = "geyser_rs"
version = "0.1.0"
edition = "2021"
publish = false

[dependencies]
anyhow = "=1.0.104"
backoff = { version = "=0.4.0", features = ["tokio"] }
bs58 = "=0.5.1"
chrono = "=0.4.45"
clap = { version = "4", features = ["derive"] }
dotenv = "=0.15.0"
env_logger = "=0.11.11"
futures = "=0.3.34"
log = "=0.4.34"
reqwest = { version = "0.12", default-features = false, features = ["json", "rustls-tls"] }
serde = { version = "=1.0.229", features = ["derive"] }
serde_json = "=1.0.154"
serde_jsonc = "=1.0.108"
tokio = { version = "=1.54.1", features = ["macros", "rt-multi-thread", "signal", "sync", "time"] }
tonic = "*"
yellowstone-grpc-client = "*"
yellowstone-grpc-proto = "*"

[package]
name = "utopia_server"
version = "0.1.0"
edition = "2021"
publish = false

[dependencies]
anyhow = "=1.0.104"
argon2 = { version = "=0.5.3", features = ["std"] }
chrono = "=0.4.45"
feed-rs = "=2.4.0"
jsonwebtoken = "=9.3.1"
reqwest = { version = "=0.12.28", default-features = false }
serde = { version = "=1.0.229", features = ["derive"] }
serde_json = { version = "=1.0.154", features = ["raw_value"] }
sha2 = "=0.10.9"
thiserror = "=2.0.21"
tokio = { version = "=1.54.1", features = ["rt-multi-thread", "macros", "net", "time"] }
uuid = { version = "=1.29.0", features = ["serde", "v7"] }

[package]
name = "fontsync"
version = "0.1.0"
edition = "2021"
publish = false

[dependencies]
uuid = { version = "1", features = ["v4", "serde"] }
blake3 = "1"
ttf-parser = "*"
axum = { version = "0.8", features = ["ws"] }
tokio = { version = "1", features = ["full"] }
futures = "0.3"
serde = { version = "1", features = ["derive"] }
serde_json = "1"
log = "0.4"
env_logger = "0.11"
dotenv = "0.15"
tower-http = { version = "*", features = ["cors"] }
tokio-util = { version = "*", features = ["io"] }
reqwest = { version = "0.12", default-features = false, features = ["json"] }
jsonwebtoken = "9"
tokio-postgres = "0.7"

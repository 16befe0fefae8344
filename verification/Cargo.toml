[package]
name = "apcore-a2a"
version = "0.4.4"
edition = "2021"
publish = false

[dependencies]
apcore = "=0.28.0"
apcore-toolkit = "=0.10.2"
async-stream = "0.3"
async-trait = "0.1"
axum = "0.8"
chrono = "0.4"
clap = { version = "4", features = ["derive"] }
futures-util = "0.3"
jsonwebtoken = "9"
regex = "1"
reqwest = { version = "0.12", default-features = false, features = ["json", "stream"] }
serde = { version = "1", features = ["derive"] }
serde_json = "1"
thiserror = "2"
tokio = { version = "1", features = ["full"] }
tokio-stream = "0.1"
tower = { version = "0.5", features = ["util"] }
tower-http = { version = "0.6", features = ["cors"] }
tracing = "0.1"
uuid = { version = "1", features = ["v4"] }

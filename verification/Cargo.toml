[package]
name = "pipecat_rs"
version = "0.1.0"
edition = "2021"
publish = false

[dependencies]
anyhow = "1"
async-trait = "*"
futures = "0.3"
futures-util = "0.3"
glob = "*"
once_cell = "1"
serde = { version = "1", features = ["derive"] }
serde_json = "1"
serde_yaml = "*"
thiserror = "*"
tokio = { version = "1", features = ["full"] }
tokio-tungstenite = "*"
tungstenite = "*"
url = "2"
uuid = { version = "1", features = ["v4"] }

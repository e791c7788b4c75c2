[package]
name = "rhizos_node"
version = "0.1.0"
edition = "2021"
publish = false

[dependencies]
sysinfo = "=0.39.6"
uuid = { version = "=1.27.0", features = ["v4"] }
chrono = "=0.4.45"
tokio = { version = "=1.53.2", features = ["full"] }
tokio-tungstenite = "=0.30.0"
futures-util = "=0.3.34"
bollard = "=0.21.1"
clap = { version = "=4.6.7", features = ["derive"] }
dirs = "=7.0.0"
toml = "=1.1.6"
serde = { version = "=1.0.229", features = ["derive"] }
serde_json = "=1.0.151"
anyhow = "=1.0.104"
reqwest = { version = "=0.13.5", default-features = false, features = ["json"] }
nvml-wrapper = "*"

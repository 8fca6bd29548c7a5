[package]
name = "hive_node"
version = "0.1.0"
edition = "2021"
publish = false

[dependencies]
anyhow = "1"
bollard = "0.18"
candle-core = "0.8"
candle-transformers = "0.8"
chrono = "0.4"
colog = "1.3"
dashmap = "6"
dotenv = "0.15"
futures = "0.3"
futures-util = "0.3"
indicatif = "0.17"
influxdb2 = { version = "0.5", default-features = false, features = ["rustls"] }
lazy_static = "1"
log = "0.4"
nvml-wrapper = "0.10"
once_cell = "1"
rand = "0.8"
reqwest = { version = "0.12", default-features = false, features = ["blocking"] }
serde = { version = "1", features = ["derive"] }
serde_json = "1"
sysinfo = "0.30"
tokenizers = { version = "0.21", default-features = false, features = ["onig"] }
tokio = { version = "1", features = ["rt-multi-thread", "macros", "sync", "time", "net"] }
tokio-tungstenite = "0.24"
uuid = { version = "1", features = ["v4"] }

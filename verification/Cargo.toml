[package]
name = "broker-feeds"
version = "0.1.0"
edition = "2021"
publish = false

[dependencies]
anyhow = "1"
async-trait = "0.1"
bytes = "1"
chrono = "=0.4.45"
chrono-tz = "=0.10.4"
futures-util = "0.3"
log = "0.4"
nautilus-common = { version = "=0.57.0", features = ["live"] }
nautilus-core = "=0.57.0"
nautilus-live = "=0.57.0"
nautilus-model = { version = "=0.57.0", features = ["high-precision"] }
nautilus-network = "=0.57.0"
nautilus-system = "=0.57.0"
prost = "=0.13.5"
pyo3 = "0.28"
reqwest = { version = "0.12", default-features = false, features = ["json"] }
rmp-serde = "1"
rust_decimal = "=1.43.0"
serde = { version = "1", features = ["derive"] }
serde_json = "1"
thiserror = "2"
tokio = { version = "1", features = ["rt", "rt-multi-thread", "sync", "time", "macros"] }
tokio-tungstenite = "*"
tokio-util = "*"
tonic = "0.13"

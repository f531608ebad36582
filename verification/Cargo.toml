[package]
name = "tdg_rust"
version = "0.1.0"
edition = "2021"
publish = false

[dependencies]
chrono = "=0.4.45"
uuid = { version = "=1.29.0", features = ["v4"] }
serde = { version = "=1.0.229", features = ["derive"] }
serde_json = "=1.0.154"
figment = { version = "=0.10.19", features = ["yaml", "json", "env"] }
shellexpand = "=3.1.2"
thiserror = "=1.0.69"
anyhow = "=1.0.104"
rusqlite = { version = "=0.31.0", features = ["bundled", "backup"] }
ndarray = "=0.16.1"
rustfft = "=6.4.1"
rand = "=0.8.8"
reqwest = { version = "=0.12.28", default-features = false, features = ["json", "rustls-tls"] }
tokio = { version = "=1.54.1", features = ["rt-multi-thread", "macros"] }
async-trait = "=0.1.92"
toon-format = "=0.7.0"
ahash = "=0.8.12"
petgraph = "=0.8.3"
rustworkx-core = "=0.18.1"
leiden-rs = "=0.8.1"
linfa = "*"
linfa-clustering = "*"
linfa-preprocessing = "*"

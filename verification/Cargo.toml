[package]
name = "dbd"
version = "0.1.0"
edition = "2021"
publish = false

[dependencies]
anyhow = "=1.0.104"
async-std = { version = "=1.13.2", features = ["attributes", "tokio1"] }
chrono = "=0.4.45"
config = "=0.11.0"
console = "=0.15.11"
dirs = "=4.0.0"
futures = "=0.3.34"
indicatif = "0.17"
serde = { version = "=1.0.229", features = ["derive"] }
structopt = "=0.3.26"
surf = { version = "=2.3.2", default-features = false, features = ["h1-client-rustls"] }
tide = "=0.16.0"
tokio = { version = "=1.54.1", features = ["process", "io-util", "rt", "macros"] }
tokio-stream = "=0.1.19"
tokio-util = { version = "=0.7.20", features = ["compat", "io"] }

[dev-dependencies]
async-bincode = "=0.6.2"
bincode = "=1.3.3"
bytes = { version = "=1.12.1", features = ["serde"] }

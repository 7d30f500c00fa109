[package]
name = "alexandria"
version = "0.1.0"
edition = "2021"
publish = false

[dependencies]
anyhow = "1"
async-trait = "0.1"
axum = "0.8"
base64 = "0.22"
candle-core = "*"
candle-nn = "*"
candle-transformers = "*"
chrono = "0.4"
chrono-tz = "0.10"
cron = "*"
hf-hub = { version = "*", default-features = false, features = ["ureq", "rustls-tls"] }
reqwest = { version = "0.12", default-features = false, features = ["rustls-tls"] }
rmcp = { version = "*", features = ["server", "macros"] }
serde = { version = "1", features = ["derive"] }
serde_json = "1"
tempfile = "3"
tokenizers = { version = "*", default-features = false, features = ["fancy-regex"] }
tokio = { version = "1", features = ["rt-multi-thread", "macros", "sync"] }
tracing = "0.1"
uuid = { version = "1", features = ["v4"] }

[package]
name = "mdya"
version = "0.1.0"
edition = "2021"
publish = false

[dependencies]
anyhow = "=1.0.104"
arrow-array = "=60.1.0"
arrow-schema = "=60.1.0"
axum = "=0.8.9"
candle-core = "=0.11.1"
candle-nn = "=0.11.1"
candle-transformers = "=0.11.1"
chrono = { version = "=0.4.45", default-features = false, features = ["std"] }
clap = { version = "=4.6.7", default-features = false, features = ["derive", "error-context", "help", "std", "usage"] }
dirs = "=7.0.0"
fd-lock = "=4.0.4"
futures = "=0.3.34"
hf-hub = { version = "=0.5.0", default-features = false, features = ["rustls-tls", "tokio"] }
ignore = "=0.4.34"
indicatif = "=0.18.6"
pdf-extract = "=0.12.1"
pulldown-cmark = { version = "=0.13.6", default-features = false }
reqwest = { version = "=0.13.5", default-features = false, features = ["json"] }
rmcp = { version = "=3.8.0", features = ["server", "macros", "transport-io", "transport-streamable-http-server"] }
serde = { version = "=1.0.229", features = ["derive"] }
serde_json = "=1.0.154"
serde_yaml_ng = "=0.10.0"
sha2 = "=0.10.9"
shellexpand = "=3.1.2"
sysinfo = "=0.40.1"
tokenizers = { version = "=0.23.2", default-features = false, features = ["fancy-regex"] }
tokio = { version = "=1.54.1", features = ["full"] }
tokio-util = "=0.7.20"
tracing = "=0.1.44"
tracing-subscriber = { version = "=0.3.23", features = ["env-filter", "json"] }

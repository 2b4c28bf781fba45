[package]
name = "rustube"
version = "0.1.0"
edition = "2021"
publish = false

[dependencies]
regex = "=1.13.1"
mime = "=0.3.17"
url = "=2.5.8"
serde = { version = "=1.0.229", features = ["derive"] }
serde_json = "=1.0.154"
serde_yaml = "=0.9.34"
clap = { version = "=4.6.7", features = ["derive"] }
log = "=0.4.35"
fern = { version = "=0.6.2", features = ["colored"] }
anyhow = "=1.0.104"
reqwest = { version = "=0.12.28", default-features = false, features = ["json"] }
tokio = { version = "=1.54.1", features = ["rt-multi-thread", "macros", "sync"] }
serde_qs = "=0.13.0"
pbr = "=1.1.1"

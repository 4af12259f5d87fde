[package]
name = "sap_pipeline"
version = "0.1.0"
edition = "2021"
publish = false

[dependencies]
anyhow = "1"
base64 = "0.22"
chrono = "0.4"
clap = { version = "4", features = ["derive"] }
dialoguer = "0.11"
encoding_rs = "0.8"
env_logger = "0.11"
glob = "0.3"
log = "0.4"
reqwest = { version = "0.12", default-features = false, features = ["multipart", "json"] }
serde = { version = "1", features = ["derive"] }
serde_json = "1"
tempfile = "3"
tokio = { version = "1", features = ["rt-multi-thread", "macros", "fs", "time", "process"] }
toml = "0.8"
urlencoding = "2"

[package]
name = "meetnote"
version = "0.1.0"
edition = "2021"
publish = false

[dependencies]
anyhow = "=1.0.104"
chrono = "=0.4.45"
core-graphics = "*"
cpal = "=0.18.2"
dirs = "=7.0.0"
glob = "=0.3.4"
hound = "=3.5.1"
lindera-analyzer = { version = "=0.32.3", features = ["ipadic"] }
log = "=0.4.34"
reqwest = { version = "=0.13.5", features = ["blocking", "json", "multipart"] }
screencapturekit = "*"
serde = { version = "=1.0.229", features = ["derive"] }
serde_json = "=1.0.154"
tempfile = "=3.27.0"
tiktoken-rs = "=0.12.1"
uuid = { version = "=1.29.0", features = ["v4"] }

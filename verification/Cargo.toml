[package]
name = "larql"
version = "0.1.0"
edition = "2021"
publish = false

[dependencies]
axum = "*"
hf-hub = { version = "*", default-features = false, features = ["ureq"] }
memmap2 = "0.9"
ndarray = "*"
reqwest = { version = "*", default-features = false, features = ["json"] }
safetensors = "0.6"
serde = { version = "1", features = ["derive"] }
serde_json = "1"
tokio = { version = "1", features = ["rt", "rt-multi-thread", "sync", "time"] }
tokio-stream = { version = "0.1", features = ["sync"] }
urlencoding = "2"

[dev-dependencies]
tempfile = "3"

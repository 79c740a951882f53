[package]
name = "media_pipeline"
version = "0.1.0"
edition = "2021"
publish = false

[dependencies]
url = "*"
reqwest = { version = "*", default-features = false, features = ["json", "multipart", "stream"] }
tokio = { version = "*", features = ["fs", "io-util", "rt", "sync", "macros"] }
tokio-util = { version = "*", features = ["io"] }
futures-util = "*"
ffprobe = "*"
ffmpeg-cli = "*"
serde = { version = "*", features = ["derive"] }
serde_json = "*"
anyhow = "*"

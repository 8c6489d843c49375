[package]
name = "media_tool"
version = "0.0.1"
edition = "2021"
publish = false

[dependencies]
anyhow = "1"
clap = { version = "4", features = ["derive"] }
env_logger = "0.11"
ffmpeg-next = "7"
futures-util = "0.3"
indicatif = "0.17"
libc = "0.2"
log = "0.4"
reqwest = { version = "0.12", features = ["stream"] }
tokio = { version = "1", features = ["full"] }

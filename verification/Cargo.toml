[package]
name = "webrtc_archive_player"
version = "0.1.0"
edition = "2021"
publish = false

[dependencies]
anyhow = "=1.0.104"
bytes = "=1.12.1"
cairo-rs = "=0.22.9"
chrono = "=0.4.45"
env_logger = "=0.11.11"
ffmpeg-next = "=9.0.0"
gtk4 = "=0.11.5"
log = "=0.4.35"
num_cpus = "=1.17.0"
reqwest = "=0.12.28"
serde = { version = "=1.0.229", features = ["derive"] }
serde_json = "=1.0.154"
tokio = { version = "=1.54.1", features = ["full"] }
url = "=2.5.8"
webrtc = "=0.17.2"

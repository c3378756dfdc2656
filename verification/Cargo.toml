[package]
name = "media_probe"
version = "0.1.0"
edition = "2021"
publish = false

[dependencies]
ffmpeg-sys-next = "*"
log = "*"
serde = { version = "*", features = ["derive"] }
serde_json = "*"

[package]
name = "av-scenechange"
version = "0.1.0"
edition = "2021"
publish = false

[dependencies]
rav1e = { version = "0.6", default-features = false, features = ["scenechange"] }
y4m = "0.7"
anyhow = "1"
serde = { version = "1", features = ["derive"] }
ffmpeg-next = "*"
vapoursynth = "*"

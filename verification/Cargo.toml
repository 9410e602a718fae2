[package]
name = "librivox_streamer"
version = "0.1.0"
edition = "2021"
publish = false

[dependencies]
flume = "*"
symphonia = { version = "0.5", features = ["mp3", "wav", "pcm"] }
rand = "0.8"
ureq = "3"
bytemuck = "*"

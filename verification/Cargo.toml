[package]
name = "android-mic-rs"
version = "0.1.0"
edition = "2021"
publish = false

[dependencies]
anyhow = "1"
cpal = "0.15"
dasp_sample = "0.11"

[package]
name = "spectrogram"
version = "0.1.0"
edition = "2021"
publish = false

[dependencies]
anyhow = "1"
rustfft = "6"
image = { version = "0.25", default-features = false, features = ["png", "jpeg", "bmp"] }

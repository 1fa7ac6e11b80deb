[package]
name = "vircam"
version = "0.1.0"
edition = "2021"
publish = false

[dependencies]
image = "*"
nokhwa = { version = "*", features = ["input-native"] }

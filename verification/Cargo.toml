[package]
name = "waga_webrtc_core"
version = "0.1.0"
edition = "2021"
publish = false

[dependencies]
str0m = { version = "0.23.1", default-features = false, features = ["rust-crypto"] }

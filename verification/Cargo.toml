[package]
name = "dvm"
version = "0.1.0"
edition = "2021"
publish = false

[dependencies]
fxprof-processed-profile = "0.8"
serde = { version = "1", features = ["derive"] }
serde_json = "1"
serde_plain = "1"

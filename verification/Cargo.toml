[package]
name = "preview_cache"
version = "0.1.0"
edition = "2021"
publish = false

[dependencies]
base64 = "0.22"
grammers-client = "0.8"
grammers-tl-types = "0.8"
log = "0.4"
tokio = { version = "1", features = ["fs", "macros", "rt", "sync", "time"] }

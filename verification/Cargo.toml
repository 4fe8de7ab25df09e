[package]
name = "vigilo"
version = "0.1.0"
edition = "2021"
publish = false

[dependencies]
arc-swap = "1"
ccap-rs = "*"
fast_image_resize = "5"
image = { version = "0.25", default-features = false, features = ["jpeg"] }
serde = { version = "1", features = ["derive"] }
serde_json = "1"
tiny_http = "0.12"
toml = "0.8"
tracing = "0.1"
tracing-subscriber = { version = "0.3", features = ["env-filter"] }

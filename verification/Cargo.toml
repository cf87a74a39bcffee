[package]
name = "openay_mic"
version = "0.1.0"
edition = "2021"
publish = false

[dependencies]
anyhow = "1"
audiopus = "0.3.0-rc.0"
clap = { version = "4", features = ["derive"] }
dirs = "6"
iced = { version = "0.13", default-features = false, features = ["tiny-skia", "canvas", "tokio"] }
if-addrs = "0.13"
serde = { version = "1", features = ["derive"] }
socket2 = "0.5"
tokio = { version = "1", features = ["full"] }
toml = "0.8"

[package]
name = "bmps"
version = "0.1.0"
edition = "2021"
publish = false

[dependencies]
anyhow = "=1.0.104"
blurslice = "=0.1.0"
image = "=0.24.9"
kamadak-exif = "=0.5.5"
log = "=0.4.34"
prost = "=0.12.6"
tokio = { version = "1", features = ["rt", "sync"] }
tokio_with_wasm = { version = "=0.9.2", features = ["rt", "sync"] }

[package]
name = "meshfit"
version = "0.1.0"
edition = "2021"
publish = false

[dependencies]
anyhow = "=1.0.104"
candle-core = "=0.9.2"
candle-examples = "=0.9.2"
candle-nn = "=0.9.2"
candle-transformers = "=0.9.2"
clap = { version = "=4.6.7", features = ["derive"] }
gltf = "=1.4.1"
hf-hub = { version = "=0.4.3", default-features = false, features = ["ureq"] }
image = { version = "=0.25.10", default-features = false, features = ["png", "jpeg", "bmp", "webp"] }
log = "=0.4.35"
ndarray = "0.17"
ndarray-npy = "0.10"
ort = { version = "=2.0.0-rc.15", default-features = false, features = ["ndarray", "load-dynamic"] }
serde = { version = "=1.0.229", features = ["derive"] }
serde_json = "=1.0.154"

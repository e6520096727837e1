[package]
name = "mixlab"
version = "0.1.0"
edition = "2021"
publish = false

[dependencies]
bytes = "=1.12.1"
num-rational = { version = "=0.2.4", default-features = false, features = ["std"] }
num-traits = { version = "=0.2.19", default-features = false, features = ["std"] }
rml_rtmp = "=0.3.8"
fdk-aac = "=0.8.0"
tokio = { version = "=0.2.25", features = ["io-util", "tcp"] }
futures = "=0.3.34"
serde = { version = "=1.0.229", features = ["derive"] }
derive_more = "=0.99.20"
lazy_static = "=1.5.1"
ffmpeg-dev = "=0.3.8"

[dev-dependencies]
mse_fmp4 = "=0.2.0"

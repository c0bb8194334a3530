[package]
name = "translator"
version = "0.1.0"
edition = "2021"
publish = false

[dependencies]
anyhow = "=1.0.104"
arc-swap = "=1.9.3"
bytes = "=1.12.1"
futures-util = "=0.3.34"
image = { version = "=0.25.10", default-features = false }
oar-ocr = { version = "=0.10.2", default-features = false }
# Loads the ONNX Runtime of `oar-ocr` when it is first used, so that builds need no copy of it.
ort = { version = "=2.0.0-rc.13", default-features = false, features = ["load-dynamic"] }
parking_lot = "=0.12.5"
reqwest = { version = "=0.12.28", default-features = false, features = ["stream"] }
serde = { version = "=1.0.229", features = ["derive"] }
thiserror = "=2.0.21"
tokio = { version = "=1.54.1", features = ["rt-multi-thread", "time", "sync", "fs", "io-util", "macros"] }
tokio-util = "=0.7.20"
toml = "=1.1.8"
toml_edit = { version = "=0.25.17", features = ["serde"] }
tracing = "=0.1.44"
tracing-subscriber = "=0.3.23"
windows = "=0.62.2"
windows-canvas = "=0.100.0"
windows-capture = "=2.0.1"
windows-collections = "=0.100.0"
windows-core = "=0.100.0"
windows-reactor = "=0.100.0"
windows-reference = "=0.100.0"

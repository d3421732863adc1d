[package]
name = "cloudreve_native"
version = "0.1.0"
edition = "2021"
publish = false

[dependencies]
base64 = "0.22"
cloudreve-api = "*"
futures-util = "0.3"
log = "0.4"
napi = { version = "2", default-features = false, features = ["napi8", "tokio_rt", "async"] }
napi-derive = "2"
reqwest = { version = "*", default-features = false, features = ["json", "stream", "multipart"] }
serde = { version = "1", features = ["derive"] }
serde_json = "1"
tokio = { version = "1", features = ["fs", "io-util", "time", "rt"] }

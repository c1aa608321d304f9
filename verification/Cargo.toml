[package]
name = "console2lce"
version = "0.1.0"
edition = "2021"
publish = false

[dependencies]
flate2 = "1"
lzxd = "0.2"
url = "2"
serde = { version = "1", features = ["derive"] }
serde_json = "1"
tokio = { version = "1", features = ["net", "io-util", "time", "macros", "rt-multi-thread", "sync"] }
tokio-util = "0.7"
reqwest = "*"

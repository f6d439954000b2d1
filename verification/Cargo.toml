[package]
name = "ytdl"
version = "0.1.0"
edition = "2021"
publish = false

[dependencies]
serde_json = "1"
serde_urlencoded = "0.7"
hyper = { version = "0.14", features = ["client", "http1", "tcp", "stream"] }
tokio = { version = "1", features = ["rt-multi-thread", "macros", "io-util", "fs", "net"] }
native-tls = "0.2"
tokio-native-tls = "0.3"
futures = "0.3"
indicatif = "0.17"

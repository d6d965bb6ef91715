[package]
name = "termplay"
version = "0.1.0"
edition = "2021"
publish = false

[dependencies]
anyhow = "*"
native-tls = "*"
tokio = { version = "*", features = ["rt-multi-thread", "macros", "sync", "io-util", "net", "time", "signal"] }
tokio-native-tls = "*"

[dev-dependencies]
serde_json = "*"

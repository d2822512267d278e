[package]
name = "http_fo"
version = "0.1.0"
edition = "2021"
publish = false

[dependencies]
lru = "*"
url = "2"
reqwest = { version = "*", default-features = false, features = ["json"] }
tokio = { version = "1", features = ["full"] }
tokio-tungstenite = { version = "*", features = ["native-tls"] }
native-tls = "*"
tokio-native-tls = "*"
http = "1"
uuid = { version = "1", features = ["v4"] }
serde_json = "1"
thiserror = "*"
parking_lot = "*"
tracing = "0.1"

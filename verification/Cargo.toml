[package]
name = "murmur"
version = "0.1.0"
edition = "2021"
publish = false

[dependencies]
block2 = "*"
dotenvy = "*"
futures-util = "*"
muda = "*"
objc2 = "*"
objc2-app-kit = "*"
objc2-foundation = "*"
rtrb = "*"
rubato = "*"
serde = { version = "*", features = ["derive"] }
serde_json = "*"
thiserror = "*"
tokio = { version = "*", features = ["full"] }
tokio-tungstenite = { version = "*", features = ["rustls-tls-native-roots"] }
tray-icon = "*"

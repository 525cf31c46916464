[package]
name = "ble-network-upgrade"
version = "0.1.0"
edition = "2021"
publish = false

[dependencies]
libp2p = { version = "*", default-features = false, features = ["ed25519"] }
serde = { version = "1", features = ["derive"] }
serde_json = "1"
tokio = { version = "1", features = ["rt-multi-thread", "macros", "sync", "time", "signal"] }
futures = "0.3"
uuid = "1"
anyhow = "1"
btleplug = "*"
ble-peripheral-rust = "*"
objc2 = "0.6"
objc2-foundation = "0.3"
objc2-core-bluetooth = "0.3"
objc2-multipeer-connectivity = "0.3"
block2 = "0.6"

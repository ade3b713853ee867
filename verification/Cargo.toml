[package]
name = "tray_media"
version = "0.1.0"
edition = "2021"
publish = false

[dependencies]
zbus = "3"
zvariant = "3"
tokio = { version = "1", features = ["rt-multi-thread", "time", "sync", "macros"] }
futures-util = "0.3"
futures-channel = "0.3"
debounced = "*"
serde = { version = "1", features = ["derive"] }
serde_json = "1"

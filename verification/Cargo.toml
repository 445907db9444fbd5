[package]
name = "desktop_core"
version = "0.1.0"
edition = "2021"
publish = false

[dependencies]
rusqlite = { version = "=0.40.2", features = ["bundled"] }
serde_json = "=1.0.151"
serde = { version = "=1.0.229", features = ["derive"] }
uuid = { version = "=1.27.0", features = ["v4"] }
keyring = { version = "=3.6.3", default-features = false }
reqwest = { version = "=0.13.5", default-features = false, features = ["json", "stream"] }
tokio = { version = "=1.53.2", features = ["full"] }
tokio-util = "=0.7.19"
futures-util = "=0.3.34"

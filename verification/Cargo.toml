[package]
name = "thevalley"
version = "0.1.0"
edition = "2021"
publish = false

[dependencies]
im-rc = "15"
rand = "=0.8.8"
serde = { version = "=1.0.229", features = ["derive"] }
serde_json = "=1.0.154"
serde_with = "=3.24.0"
tokio = { version = "=1.54.1", features = ["macros", "rt-multi-thread", "sync"] }
uuid = { version = "=1.29.0", features = ["serde", "v4"] }

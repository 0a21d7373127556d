[package]
name = "schoolhax"
version = "0.1.0"
edition = "2021"
publish = false

[dependencies]
directories = "*"
global-hotkey = "*"
serde = { version = "1", features = ["derive"] }
serde_json = "1"
thiserror = "*"
tokio = { version = "1", features = ["rt", "rt-multi-thread", "sync"] }

[package]
name = "checkpoint_sessions"
version = "0.1.0"
edition = "2021"
publish = false

[dependencies]
titor = { version = "=0.1.2", default-features = false }
tokio = { version = "*", features = ["sync", "rt-multi-thread", "macros", "time"] }
serde = { version = "*", features = ["derive"] }
serde_json = "*"
anyhow = "*"

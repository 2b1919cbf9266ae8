[package]
name = "flexdisplay_host"
version = "0.2.4"
edition = "2021"
publish = false

[dependencies]
anyhow = "1"
futures = "0.3"
serde = { version = "1", features = ["derive"] }
serde_json = "1"
tokio = { version = "1", features = ["macros", "rt-multi-thread", "process", "io-util", "sync", "time"] }
tracing = "0.1"
tracing-subscriber = { version = "0.3", features = ["env-filter"] }
warp = "0.3"
winapi = { version = "0.3", features = ["winuser"] }

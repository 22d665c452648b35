[package]
name = "castzura"
version = "0.1.0"
edition = "2021"
publish = false

[dependencies]
ashpd = { version = "=0.12.3", default-features = false, features = ["tokio"] }
axum = { version = "=0.8.9", features = ["ws"] }
clap = { version = "4", features = ["derive"] }
eyre = "0.6"
pipewire = "=0.9.2"
serde = { version = "1", features = ["derive"] }
serde_json = "=1.0.154"
tokio = { version = "1", features = ["full"] }
tower-http = { version = "0.6", features = ["fs", "trace"] }
tracing = "0.1"
tracing-subscriber = { version = "0.3", features = ["env-filter"] }
webrtc = "0.17"

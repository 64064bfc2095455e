[package]
name = "smart_home"
version = "0.1.0"
edition = "2021"
publish = false

[dependencies]
axum = "0.8"
tokio = { version = "1", features = ["macros", "rt-multi-thread", "net", "sync"] }
tower-http = { version = "0.6", features = ["fs"] }
tracing-subscriber = "0.3"
serde = { version = "1", features = ["derive"] }
serde_json = "1"
libloading = "0.8"

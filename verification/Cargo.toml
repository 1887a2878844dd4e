[package]
name = "smql"
version = "0.1.0"
edition = "2021"
publish = false

[dependencies]
axum = "*"
serde = { version = "1", features = ["derive"] }
skyak_axum_core = "*"
tokio = { version = "1", features = ["macros", "rt-multi-thread", "net", "sync"] }
tower-http = { version = "*", features = ["cors"] }
tracing = "0.1"
tracing-subscriber = "0.3"
uuid = { version = "1", features = ["v7", "serde"] }

[package]
name = "homeserver_sync"
version = "0.1.0"
edition = "2021"
publish = false

[dependencies]
ruma = { version = "0.5", features = ["client-api", "events"] }
serde_json = "1"
tokio = { version = "1", features = ["sync", "time", "rt", "macros"] }
tracing = "0.1"

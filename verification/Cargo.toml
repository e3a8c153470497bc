[package]
name = "myquest"
version = "0.1.0"
edition = "2021"
publish = false

[dependencies]
chrono = "0.4"
uuid = { version = "1", features = ["v4", "serde"] }
serde = { version = "1", features = ["derive"] }
serde_json = "1"
serde_yaml = "0.9"
tokio = { version = "1", features = ["rt-multi-thread", "macros", "sync", "fs", "time"] }
directories = "5"
once_cell = "1"
thiserror = "1"
tracing = "0.1"
qrcode = { version = "0.14", default-features = false, features = ["svg"] }
rusqlite = { version = "0.32", features = ["bundled"] }

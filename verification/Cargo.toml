[package]
name = "krabka_admin"
version = "0.1.0"
edition = "2021"
publish = false

[dependencies]
uuid = { version = "=1.29.0", features = ["v4"] }
serde = { version = "=1.0.229", features = ["derive"] }
serde_json = "=1.0.154"
serde_urlencoded = "=0.7.1"
clap = { version = "=4.6.7", features = ["derive", "env"] }
tokio = { version = "=1.54.1", features = ["rt-multi-thread", "macros", "signal", "fs", "net", "time", "process"] }
thiserror = "=2.0.21"
parking_lot = "=0.12.5"
axum = { version = "=0.8.9", default-features = false, features = ["tokio", "http1", "form", "query"] }

[package]
name = "rstore"
version = "0.1.0"
edition = "2021"
publish = false

[dependencies]
chorba = "*"
tokio = { version = "1", features = ["net", "io-util", "rt-multi-thread", "macros", "time"] }
thiserror = "*"
log = "0.4"
axum = "*"
serde = { version = "1", features = ["derive"] }
serde_json = "1"

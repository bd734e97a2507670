[package]
name = "cbuild"
version = "0.1.0"
edition = "2021"
publish = false

[dependencies]
anyhow = "1"
clap = { version = "4", features = ["derive"] }
mlua = { version = "*", features = ["lua54", "vendored", "async", "serialize"] }
path-absolutize = "3"
serde = { version = "1", features = ["derive"] }
tokio = { version = "1", features = ["full"] }
tracing = "0.1"
tracing-subscriber = "0.3"

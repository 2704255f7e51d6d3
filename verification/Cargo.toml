[package]
name = "nx_tui"
version = "0.1.0"
edition = "2021"
publish = false

[dependencies]
anyhow = "1"
better-panic = "0.3"
crossterm = "0.28"
napi = { version = "2", default-features = false, features = ["napi4", "tokio_rt"] }
portable-pty = "0.8"
ratatui = "0.29"
serde = { version = "1", features = ["derive"] }
serde_json = "1"
tokio = { version = "1", features = ["rt", "sync", "time"] }
vt100 = "0.15"

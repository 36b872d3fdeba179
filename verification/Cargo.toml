[package]
name = "sentra_fim"
version = "0.1.0"
edition = "2021"
publish = false

[dependencies]
rusqlite = { version = "*", features = ["bundled"] }
blake3 = "*"
sha2 = "*"
globset = "*"
anyhow = "*"
clap = { version = "*", features = ["derive"] }
dunce = "*"
notify = "*"
prometheus = "*"
serde = { version = "*", features = ["derive"] }
time = "*"
tokio = { version = "*", features = ["rt-multi-thread", "macros", "net", "sync"] }
toml = "*"
tracing = "*"
tracing-subscriber = { version = "*", features = ["env-filter"] }
walkdir = "*"
axum = "*"

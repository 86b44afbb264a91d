[package]
name = "sqlite2parquet"
version = "0.1.0"
edition = "2021"
publish = false

[dependencies]
anyhow = "=1.0.104"
# parquet formats dates through chrono without switching on the feature
# that chrono puts date formatting behind; naming it here switches it on.
chrono = { version = "=0.4.45", default-features = false, features = ["alloc"] }
clap = { version = "=3.2.25", features = ["derive"] }
crossterm = "=0.23.2"
fallible-streaming-iterator = "=0.1.9"
parquet = { version = "=13.0.0", default-features = false, features = ["zstd"] }
parquet-format = "=4.0.0"
rusqlite = "=0.27.0"
serde = { version = "=1.0.229", features = ["derive"] }
serde_yaml = "=0.8.26"
thousands = "=0.2.0"
tracing = "=0.1.44"
tracing-subscriber = "=0.3.23"

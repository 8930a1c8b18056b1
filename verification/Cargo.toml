[package]
name = "aperture"
version = "0.1.0"
edition = "2021"
publish = false

[dependencies]
chrono = { version = "0.4", features = ["serde"] }
dirs = "5"
serde = { version = "1", features = ["derive"] }
serde_json = "1"
rusqlite = { version = "0.32", features = ["bundled"] }
open = "5"
notify = "6"
notify-debouncer-mini = "0.4"
tokio = { version = "1", features = ["sync", "time", "rt", "macros"] }
axum = "0.7"

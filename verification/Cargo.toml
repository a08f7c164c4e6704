[package]
name = "departure_board"
version = "0.1.0"
edition = "2021"
publish = false

[dependencies]
anyhow = "1"
chrono = "0.4"
comfy-table = { version = "7", default-features = false }
crossterm = "0.28"
iso8601-timestamp = "0.2"
reqwest = { version = "0.12", default-features = false }
serde_json = "1"
thiserror = "1"
tokio = { version = "1", features = ["macros", "rt-multi-thread"] }

[package]
name = "waytime"
version = "0.1.0"
edition = "2021"
publish = false

[dependencies]
chrono = "0.4"
clap = { version = "4", features = ["derive"] }
comfy-table = "7"
dirs = "5"
rusqlite = { version = "*", features = ["bundled"] }
tokio = { version = "1", features = ["macros", "rt", "sync", "time", "signal"] }
zbus = { version = "4", default-features = false, features = ["tokio"] }

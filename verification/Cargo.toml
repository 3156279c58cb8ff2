[package]
name = "letta-lite"
version = "0.1.0"
edition = "2021"
publish = false

[dependencies]
serde = { version = "1", features = ["derive"] }
serde_json = "1"
chrono = { version = "0.4", features = ["serde"] }
uuid = { version = "1", features = ["v4"] }
tera = "1"
thiserror = "1"
async-trait = "0.1"
tokio = { version = "1", features = ["rt-multi-thread", "time"] }
reqwest = { version = "*", features = ["json"] }
rusqlite = { version = "*", features = ["bundled", "backup", "chrono"] }
r2d2 = "0.8"
r2d2_sqlite = "*"
tracing = "0.1"
lazy_static = "1"
libc = "0.2"

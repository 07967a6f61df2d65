[package]
name = "codex-state"
version = "0.1.0"
edition = "2021"
publish = false

[dependencies]
anyhow = "1"
chrono = { version = "0.4", default-features = false, features = ["alloc", "clock", "std"] }
serde = { version = "1", features = ["derive"] }
serde_json = "1"
sha2 = "*"
sqlx = { version = "*", default-features = false, features = ["chrono", "json", "macros", "postgres", "runtime-tokio", "sqlite"] }
tokio = { version = "1", features = ["macros", "rt"] }
uuid = { version = "1", features = ["v4"] }

[package]
name = "retro_chat"
version = "0.1.0"
edition = "2021"
publish = false

[dependencies]
chrono = "0.4"
cursive = { version = "*", default-features = false, features = ["crossterm-backend"] }
serde = { version = "1", features = ["derive"] }
serde_json = "1"
tokio = { version = "1", features = ["sync", "net", "io-util", "rt-multi-thread", "macros"] }

[package]
name = "platformer"
version = "0.1.0"
edition = "2021"
publish = false

[dependencies]
bevy_math = { version = "0.16", features = ["serialize"] }
bincode = "1"
raylib = "*"
serde = { version = "1", features = ["derive"] }
tokio = { version = "1", features = ["full"] }

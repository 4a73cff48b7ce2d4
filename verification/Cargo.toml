[package]
name = "doomrakr"
version = "0.1.0"
edition = "2021"
publish = false

[dependencies]
chrono = "0.4"
json = "0.12"
rodio = "0.17"
serde = { version = "1", features = ["derive"] }
serde_json = "1"
tokio = { version = "1", features = ["rt-multi-thread", "macros"] }
warp = "0.3"

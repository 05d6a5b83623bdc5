[package]
name = "usr_backend"
version = "0.1.0"
edition = "2021"
publish = false

[dependencies]
tokio = { version = "1", features = ["macros", "rt-multi-thread", "time"] }
parking_lot = "0.12"
discord-webhook2 = "*"

[package]
name = "trackcards"
version = "0.1.0"
edition = "2021"
publish = false

[dependencies]
serenity = "0.12"
spotify-rs = "*"
tokio = { version = "1", features = ["macros", "rt-multi-thread"] }

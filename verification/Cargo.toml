[package]
name = "chat_core"
version = "0.1.0"
edition = "2021"
publish = false

[dependencies]
tokio = { version = "1", features = ["net", "sync", "io-util", "rt-multi-thread", "macros"] }

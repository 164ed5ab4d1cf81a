[package]
name = "text_to_speech"
version = "0.1.0"
edition = "2021"

[dependencies]
serde_urlencoded = "0.7"
reqwest = "0.12"
tokio = { version = "1", features = ["fs", "io-util", "macros", "rt-multi-thread"] }

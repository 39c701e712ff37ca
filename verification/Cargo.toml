[package]
name = "squeeze"
version = "0.1.0"
edition = "2021"
publish = false

[dependencies]
tokio = { version = "1", features = ["sync", "time", "rt", "macros", "rt-multi-thread"] }

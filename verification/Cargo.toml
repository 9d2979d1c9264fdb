[package]
name = "time_convert"
version = "0.1.0"
edition = "2021"
publish = false

[dependencies]
serde_json = "1"
chrono = "0.4"
tokio = { version = "1", default-features = false, features = ["rt-multi-thread", "time"] }
reqwest = { version = "0.12", default-features = false }

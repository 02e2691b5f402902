[package]
name = "brightness_scheduler"
version = "0.1.0"
edition = "2021"
publish = false

[dependencies]
brightness = "*"
chrono = "*"
futures = "*"
tokio = { version = "*", features = ["rt-multi-thread", "time"] }

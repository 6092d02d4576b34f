[package]
name = "libfmc"
version = "0.1.0"
edition = "2021"
publish = false

[dependencies]
aes = "0.8"
btleplug = "0.11"
tokio = { version = "1", features = ["rt", "macros", "time"] }
futures-util = "0.3"
anyhow = "1"
thiserror = "1"

[package]
name = "ble_central"
version = "0.1.0"
edition = "2021"
publish = false

[dependencies]
shell-words = "1"
btleplug = "*"
uuid = "*"
tokio = { version = "*", features = ["rt-multi-thread", "macros", "time"] }
futures = "*"
pretty_env_logger = "*"

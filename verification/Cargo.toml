[package]
name = "statbar"
version = "0.1.0"
edition = "2021"
publish = false

[dependencies]
serde_json = "1"
chrono = "0.4"
notify-rust = "4"
sysinfo = "0.29"

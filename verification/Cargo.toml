[package]
name = "flipper_monitor"
version = "0.1.0"
edition = "2021"
publish = false

[dependencies]
btleplug = "=0.11.8"
serde = { version = "=1.0.229", features = ["derive"] }
serde_json = "=1.0.154"
sysinfo = { version = "=0.30.13", default-features = false }
tokio = { version = "=1.54.1", features = ["macros", "rt-multi-thread", "signal", "time"] }

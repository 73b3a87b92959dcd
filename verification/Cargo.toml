[package]
name = "task_nexus"
version = "0.1.0"
edition = "2021"
publish = false

[dependencies]
encoding_rs = "*"
base64 = "*"
sysinfo = "*"
serde = { version = "*", features = ["derive"] }
serde_json = "*"
dirs = "*"
chrono = "*"

[package]
name = "shenron"
version = "0.1.0"
edition = "2021"
publish = false

[dependencies]
shlex = "*"
serde = { version = "*", features = ["derive"] }
serde_json = "*"
serde_yaml = "*"
tempfile = "*"
thiserror = "*"

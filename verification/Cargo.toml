[package]
name = "appack"
version = "0.1.0"
edition = "2021"
publish = false

[dependencies]
anyhow = "*"
clap = { version = "*", features = ["derive"] }
notify-rust = "*"
qapi = { version = "*", features = ["qmp"] }
serde = { version = "*", features = ["derive"] }
serde_yaml = "*"
zip = "*"

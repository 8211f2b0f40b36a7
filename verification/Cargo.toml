[package]
name = "tailcloak"
version = "0.1.0"
edition = "2021"
publish = false

[dependencies]
core-foundation = "=0.10.1"
dirs = "=7.0.0"
mac-addr = "=0.3.0"
netdev = { version = "=0.47.0", features = ["serde"] }
serde = { version = "=1.0.229", features = ["derive"] }
system-configuration = "=0.8.0"
toml = "=1.1.8"

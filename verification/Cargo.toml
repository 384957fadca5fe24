[package]
name = "ramp"
version = "0.1.0"
edition = "2021"
publish = false

[dependencies]
serde = { version = "1", features = ["derive"] }
serde_json = "1"
bitcoin = "0.32"
bdk_wallet = "*"
air = "*"
log = "0.4"

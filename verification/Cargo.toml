[package]
name = "plight"
version = "0.1.0"
edition = "2021"
publish = false

[dependencies]
rand = "=0.10.3"
serialport = { version = "=4.10.1", default-features = false }
image = { version = "=0.25.10", default-features = false, features = ["png", "jpeg"] }
confique = { version = "=0.4.0", features = ["toml"] }
serde = { version = "=1.0.229", features = ["derive"] }
log = "=0.4.34"
colog = "=1.4.0"
anyhow = "=1.0.104"

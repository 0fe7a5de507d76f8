[package]
name = "fand"
version = "0.1.0"
edition = "2021"
publish = false

[dependencies]
libc = "0.2"
serde = { version = "1", features = ["derive"] }
toml = "0.8"
fs4 = "0.12"
signal-hook = "0.3"
textplots = "0.8"

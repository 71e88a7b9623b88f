[package]
name = "liquid_handler"
version = "0.1.0"
edition = "2021"
publish = false

[dependencies]
crc32fast = "*"
log = "*"
serde = { version = "*", features = ["derive"] }
serialport = "*"
simple_logger = "*"
sysinfo = "*"
toml = "*"

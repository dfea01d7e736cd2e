[package]
name = "roboclaw"
version = "0.1.0"
edition = "2021"
publish = false

[dependencies]
serialport = { version = "4", default-features = false }
serde = { version = "1", features = ["derive"] }
serde_json = "1"
num-complex = "0.4"
once_cell = "1"

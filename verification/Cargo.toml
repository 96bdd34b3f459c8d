[package]
name = "tusk"
version = "0.1.0"
edition = "2021"
publish = false

[dependencies]
byteorder = "1"
clap = { version = "4", features = ["derive"] }
rustyline = "*"
serde_json = "1"
serialport = { version = "4", default-features = false }

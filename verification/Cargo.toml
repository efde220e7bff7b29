[package]
name = "folo"
version = "0.1.0"
edition = "2021"
publish = false

[dependencies]
negative-impl = "=0.1.7"
windows = { version = "=0.58.0", features = ["Win32_Foundation", "Win32_System_IO"] }

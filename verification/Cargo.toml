[package]
name = "ceros_serial"
version = "0.1.0"
edition = "2021"
publish = false

[dependencies]
corncobs = "*"
acid_io = "*"

[package]
name = "logi_headset"
version = "0.1.0"
edition = "2021"
publish = false

[dependencies]
libc = "0.2"
gtk4 = { version = "*", features = ["v4_10"] }
libadwaita = { version = "*", features = ["v1_4"] }

[package]
name = "input_inhibit"
version = "0.1.0"
edition = "2021"
publish = false

[dependencies]
clap = { version = "4", features = ["derive"] }
evdev = "*"
owo-colors = { version = "4", features = ["supports-colors"] }

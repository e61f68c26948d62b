[package]
name = "mx002"
version = "0.1.0"
edition = "2021"
publish = false

[dependencies]
evdev = "*"
rusb = "*"
signal-hook = "*"

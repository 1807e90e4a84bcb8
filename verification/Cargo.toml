[package]
name = "resmax"
version = "0.1.0"
edition = "2021"
publish = false

[dependencies]
x11 = { version = "2", features = ["xlib", "xrandr"] }

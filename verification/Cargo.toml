[package]
name = "crubwm"
version = "0.1.0"
edition = "2021"
publish = false

[dependencies]
x11rb = { version = "*", features = ["randr"] }
x11 = { version = "*", features = ["xlib"] }
cairo-rs = { version = "*", features = ["xcb"] }
hp = "*"

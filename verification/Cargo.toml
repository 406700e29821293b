[package]
name = "wlc"
version = "0.1.0"
edition = "2021"
publish = false

[dependencies]
smithay = { version = "0.4", default-features = false, features = ["wayland_frontend"] }
resvg = { version = "*", default-features = false }

[package]
name = "wayland-vdagent"
version = "0.3.1"
edition = "2021"
publish = false

[dependencies]
wayland-client = "0.31"
wayland-protocols = { version = "0.32", features = ["client", "staging"] }
wayland-protocols-wlr = { version = "0.3", features = ["client"] }

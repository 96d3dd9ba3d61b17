[package]
name = "bg_setter"
version = "0.1.0"
edition = "2021"
publish = false

[dependencies]
image = "=0.25.10"
libc = "=0.2.190"
xcb = { version = "=1.7.1", features = ["randr", "shm"] }

[package]
name = "parapet"
version = "0.1.0"
edition = "2021"
publish = false

[dependencies]
image = { version = "=0.22.5", default-features = false }
xcb = { version = "0.9", features = ["randr"] }

[package]
name = "image_selector"
version = "0.1.0"
edition = "2021"
publish = false

[dependencies]
image = "*"
uuid = { version = "*", features = ["v4"] }
walkdir = "*"
serde = { version = "*", features = ["derive"] }

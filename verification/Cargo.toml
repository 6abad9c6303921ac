[package]
name = "screenshot_ocr"
version = "0.1.0"
edition = "2021"
publish = false

[dependencies]
image = "*"
xcap = "*"
serde = { version = "*", features = ["derive"] }
serde_json = "*"
uuid = { version = "*", features = ["v4"] }

[package]
name = "img-2-anscii-core"
version = "0.1.0"
edition = "2021"
publish = false

[dependencies]
image = { version = "*", default-features = false, features = ["bmp", "png", "jpeg"] }
thiserror = "*"

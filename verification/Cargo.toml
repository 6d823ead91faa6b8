[package]
name = "workspace"
version = "0.1.0"
edition = "2021"
publish = false

[dependencies]
anyhow = "1"
image = { version = "0.25", default-features = false, features = ["png", "jpeg", "gif", "webp", "bmp", "ico", "tiff"] }
windows-sys = { version = "0.61", features = ["Win32_System_Power"] }

[package]
name = "thrustr"
version = "0.1.0"
edition = "2021"
publish = false

[dependencies]
unicode-segmentation = "1"
base64 = "0.22"
url = "2"
serde = { version = "1", features = ["derive"] }
thiserror = "2"

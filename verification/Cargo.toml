[package]
name = "frame_rate"
version = "0.1.0"
edition = "2021"
publish = false

[dependencies]
num-rational = "0.4"
serde = { version = "1", features = ["derive"] }
utoipa = "5"

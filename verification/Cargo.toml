[package]
name = "rusty_trace"
version = "0.1.0"
edition = "2021"
publish = false

[dependencies]
cgmath = { version = "0.18", features = ["serde"] }
fastrand = "2"
image = { version = "0.24", default-features = false, features = ["png"] }
miniz_oxide = "0.7"
rmp-serde = "1"
serde = { version = "1", features = ["derive"] }

[package]
name = "finalproject"
version = "0.1.0"
edition = "2021"
publish = false

[dependencies]
csv = "1"
linfa = "0.7"
linfa-trees = "0.7"
ndarray = "0.15"
rand = "0.8"
serde = { version = "1", features = ["derive"] }

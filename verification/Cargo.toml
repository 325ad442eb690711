[package]
name = "merge_train"
version = "0.1.0"
edition = "2021"
publish = false

[dependencies]
gitlab = "*"
serde = { version = "*", features = ["derive"] }

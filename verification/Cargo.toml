[package]
name = "shapka"
version = "0.1.0"
edition = "2021"
publish = false

[dependencies]
rand = "0.8"
guid-create = "*"
chashmap = "2"
json = "0.12"
serde = { version = "1", features = ["derive"] }
serde_json = "1"
chrono = "0.4"
rocket = { version = "0.5", features = ["json"] }

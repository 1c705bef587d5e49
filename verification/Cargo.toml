[package]
name = "charms_app"
version = "0.1.0"
edition = "2021"
publish = false

[dependencies]
charms-data = "*"
serde = { version = "*", features = ["derive"] }

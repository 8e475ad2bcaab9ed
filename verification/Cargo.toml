[package]
name = "api_project"
version = "0.1.0"
edition = "2021"
publish = false

[dependencies]
rouille = "3"
serde = { version = "1", features = ["derive"] }

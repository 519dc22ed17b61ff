[package]
name = "reg_watch"
version = "0.1.0"
edition = "2021"
publish = false

[dependencies]
calamine = "*"
ctrlc = "*"
env_logger = "*"
log = "*"
reqwest = { version = "*", default-features = false, features = ["blocking"] }
serde = { version = "*", features = ["derive"] }
serde_json = "*"

[package]
name = "barley"
version = "0.1.0"
edition = "2021"
publish = false

[dependencies]
actix-files = "0.6"
actix-web = "4"
chrono = "0.4"
env_logger = "0.11"
rand = "0.8"
regex = "1"
serde = { version = "1", features = ["derive"] }
structopt = "0.3"
version-compare = "0.2"

[package]
name = "media_relay"
version = "0.1.0"
edition = "2021"
publish = false

[dependencies]
dashmap = "5"
rand = "0.8"
actix-web = "4"
actix-multipart = "0.6"
actix-cors = "0.7"
image = "0.24"
mime = "0.3"
pretty_env_logger = "0.5"
serde = { version = "1", features = ["derive"] }
serde-hex = "0.1"
thiserror = "1"

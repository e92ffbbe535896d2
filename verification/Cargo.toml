[package]
name = "card_prompt"
version = "0.1.0"
edition = "2021"
publish = false

[dependencies]
rand = "*"
uuid = { version = "*", features = ["v4", "serde"] }
serde = { version = "*", features = ["derive"] }
serde_json = "*"
actix = "*"
actix-web = "*"
actix-web-actors = "*"
actix-cors = "*"
futures = "*"
log = "*"
env_logger = "*"

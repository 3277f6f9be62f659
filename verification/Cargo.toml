[package]
name = "forum_core"
version = "0.1.0"
edition = "2021"
publish = false

[dependencies]
aes = "=0.8.4"
base64 = "=0.13.1"
blake2 = "=0.10.6"
rand = "=0.8.8"
hex = "=0.4.3"
bcrypt = "=0.15.1"
serde = { version = "=1.0.229", features = ["derive"] }
serde_json = "=1.0.154"
actix-web = "=4.18.1"
actix-cors = "0.7"
mongodb = "=2.8.2"
futures = "=0.3.34"
log = "=0.4.34"
env_logger = "0.11"

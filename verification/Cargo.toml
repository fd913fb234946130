[package]
name = "weather_service"
version = "0.1.0"
edition = "2021"
publish = false

[dependencies]
actix = "0.7"
actix-web = "0.7"
base64 = "0.10"
chrono = "0.4"
chrono-tz = "0.5"
config = "0.9"
env_logger = "0.6"
failure = "0.1"
futures = "0.1"
log = "0.4"
rand = "0.6"
rust-crypto = "0.2"
serde = "1"
serde_derive = "1"
serde_json = "1"
time = "0.1"
url = "1.7"

[package]
name = "telemetry_server"
version = "0.1.0"
edition = "2021"
publish = false

[dependencies]
actix = "=0.13.5"
actix-web = { version = "=4.18.1", default-features = false, features = ["macros", "ws"] }
actix-web-actors = "=4.3.1"
actix-files = "=0.6.10"
awc = { version = "=3.11.0", default-features = false }
env_logger = "=0.11.11"
log = "=0.4.35"
serde_json = "=1.0.154"
ms-converter = "=1.4.0"

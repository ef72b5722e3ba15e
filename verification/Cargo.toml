[package]
name = "devote"
version = "0.1.0"
edition = "2021"
publish = false

[dependencies]
actix-cors = "0.6"
actix-service = "2"
actix-web = "4"
actix-web-httpauth = "0.8"
bcrypt = "0.15"
chrono = "0.4"
derive_more = "0.99"
ed25519-compact = "2"
hmac = "0.12"
jwt = "0.16"
mongodb = "2"
serde = { version = "1", features = ["derive"] }
serde_json = "1"
sha2 = "0.10"

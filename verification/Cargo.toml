[package]
name = "rantang"
version = "0.1.0"
edition = "2021"
publish = false

[dependencies]
hmac = "0.12"
sha1 = "0.10"
image = { version = "0.24", default-features = false }
actix-web = "4"
actix-multipart = "*"
actix-cors = "*"
futures = "0.3"
serde_json = "1"
dotenvy = "0.15"

[dev-dependencies]
hex = "0.4"

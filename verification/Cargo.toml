[package]
name = "service_core"
version = "0.1.0"
edition = "2021"
publish = false

[dependencies]
jsonwebtoken = "9"
serde = { version = "1", features = ["derive"] }
serde_json = { version = "1", features = ["raw_value"] }
chrono = "0.4"
uuid = { version = "1", features = ["v4"] }
argon2 = { version = "0.5", features = ["std"] }
password-hash = { version = "0.5", features = ["getrandom"] }
argonautica = "0.2"
rand = "0.7"
bigdecimal = "0.4"
actix-web = { version = "4", default-features = false }
validator = "0.16"
kafka = { version = "0.10", default-features = false }

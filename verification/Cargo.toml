[package]
name = "conoha_acme"
version = "0.1.0"
edition = "2021"
publish = false

[dependencies]
serde_json = "1"
chrono = "0.4"
serde = { version = "1", features = ["derive"] }
serde_derive = "1"
uuid = { version = "1", features = ["serde"] }
confy = "*"
awc = { version = "3", features = ["openssl"] }
actix-web = "4"
openssl = "0.10"

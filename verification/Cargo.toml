[package]
name = "coupon_ledger"
version = "0.1.0"
edition = "2021"
publish = false

[dependencies]
argon2 = "0.5"
jsonwebtoken = "9"
uuid = { version = "1", features = ["v4"] }
serde_json = "1"
chrono = "0.4"
rand_core = { version = "0.6", features = ["getrandom"] }

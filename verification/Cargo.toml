[package]
name = "backend"
version = "0.1.0"
edition = "2021"
publish = false

[dependencies]
candid = "=0.10.39"
chrono = { version = "=0.4.45", default-features = false, features = ["alloc"] }
ciborium = "=0.2.2"
ic-cdk = "=0.16.1"
ic-cdk-macros = "=0.16.0"
ic-stable-structures = "=0.6.9"
serde = { version = "=1.0.229", features = ["derive"] }
serde_json_any_key = "=2.1.0"

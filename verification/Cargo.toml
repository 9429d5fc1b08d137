[package]
name = "lain_tv_backend"
version = "0.1.0"
edition = "2021"

[dependencies]
candid = "=0.10.37"
ic-cdk = "=0.20.3"
ic-cdk-timers = "=1.0.0"
ic-management-canister-types = "*"
ic-stable-structures = "=0.7.2"
serde = { version = "=1.0.229", features = ["derive"] }
serde_json = "=1.0.151"

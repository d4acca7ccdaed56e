[package]
name = "civ_backend"
version = "0.1.0"
edition = "2021"
publish = false

[dependencies]
sha2 = "*"
chacha20 = "*"
chacha20poly1305 = "*"
ic-cdk = "*"
ic-cdk-timers = "*"
candid = "*"
serde = { version = "*", features = ["derive"] }
icrc-ledger-types = "*"
num-traits = "*"

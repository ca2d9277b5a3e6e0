[package]
name = "felidae"
version = "0.1.0"
edition = "2021"
publish = false

[dependencies]
base64 = "=0.22.1"
bytes = "=1.12.1"
chrono = { version = "=0.4.45", default-features = false, features = ["clock", "std"] }
color-eyre = { version = "=0.6.5", default-features = false }
ed25519-dalek = "=2.2.0"
fqdn = { version = "=0.5.2", features = ["domain-name-should-have-trailing-dot"] }
hex = "=0.4.3"
humantime-serde = "=1.1.1"
p256 = { version = "=0.13.2", features = ["pkcs8"] }
pkcs8 = "=0.10.2"
prost = "=0.13.5"
rand = "=0.9.5"
rand_core = { version = "=0.6.4", features = ["getrandom"] }
serde = { version = "=1.0.229", features = ["derive"] }
serde_json = "=1.0.154"
serde_with = { version = "=3.24.0", default-features = false, features = ["std", "macros", "hex"] }
sha2 = "=0.10.9"
tendermint = "=0.40.4"
tendermint-proto = "=0.40.4"

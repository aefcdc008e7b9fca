[package]
name = "passkey_auth"
version = "0.1.0"
edition = "2021"
publish = false

[dependencies]
base64 = "=0.22.1"
ciborium = "=0.2.2"
ed25519-dalek = "=2.2.0"
js-sys = "0.3"
p256 = "=0.13.2"
rand = "=0.8.8"
serde = { version = "=1.0.229", features = ["derive"] }
serde_json = "=1.0.154"
sha2 = { version = "=0.10.9", features = ["oid"] }
thiserror = "=1.0.69"
url = "=2.5.8"
x509-cert = { version = "=0.2.5", features = ["builder"] }

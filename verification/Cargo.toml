[package]
name = "psn_ticket"
version = "0.1.0"
edition = "2021"
publish = false

[dependencies]
base64 = "=0.23.1"
ecdsa = { version = "=0.16.9", features = ["verifying", "signing", "pem", "pkcs8", "der"] }
p192 = { version = "=0.13.0", features = ["ecdsa", "pem"] }
p224 = { version = "=0.13.2", features = ["ecdsa", "pem"] }
p256 = { version = "=0.13.2", features = ["ecdsa", "pem"] }
serde = "=1.0.229"
sha1 = "0.10"
sha2 = "=0.10.9"

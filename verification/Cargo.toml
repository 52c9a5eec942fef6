[package]
name = "securitysmith"
version = "0.1.0"
edition = "2021"
publish = false

[dependencies]
quick-xml = "=0.37.5"
csv = "=1.4.0"
serde = { version = "1", features = ["derive"] }
serde_json = "=1.0.154"
serde_yaml = "=0.9.34"
pulldown-cmark = "=0.13.6"
chrono = "=0.4.45"
rand = "=0.9.5"
sha2 = "=0.10.9"
hex = "=0.4.3"
base64 = "=0.22.1"
toml = "=0.8.23"
camino = "*"
dirs = "*"
thiserror = "*"
trash = "=5.2.9"
argon2 = "*"
chacha20poly1305 = "*"
zeroize = "*"

[dev-dependencies]
tempfile = "*"

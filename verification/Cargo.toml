[package]
name = "agnt"
version = "0.1.0"
edition = "2021"
publish = false

[dependencies]
similar = "=2.7.0"
url = "=2.5.8"
sha2 = "=0.10.9"
base64 = "=0.22.1"
rand = "=0.8.8"
ignore = "=0.4.34"
serde = { version = "=1.0.229", features = ["derive"] }
serde_json = "=1.0.154"
serde_yaml = "=0.9.34"
ring = "=0.17.14"
handlebars = "=6.4.4"
clap = { version = "=4.6.7", features = ["derive"] }
rusqlite = { version = "=0.32.1", features = ["bundled"] }
keyring = { version = "=3.6.3", features = ["linux-native"] }
unicode-width = "0.2"

[package]
name = "sigint"
version = "0.1.0"
edition = "2021"
publish = false

[dependencies]
base64 = "0.22"
chrono = "0.4"
ed25519-dalek = { version = "2", features = ["rand_core"] }
rand = "0.8"
regex = "1"
url = "2"
h3o = "0.6"
log = "0.4"
serde = { version = "1", features = ["derive"] }
serde_json = "1"
rusqlite = { version = "0.31", features = ["bundled"] }
ureq = { version = "2", default-features = false, features = ["json"] }
thiserror = "1"
serialport = { version = "4", default-features = false }

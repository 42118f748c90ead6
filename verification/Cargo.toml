[package]
name = "zeropass"
version = "2.0.2"
edition = "2021"
publish = false

[dependencies]
aead = "0.5"
arboard = { version = "3", default-features = false }
argon2 = "0.5"
base64 = "0.22"
chacha20poly1305 = "0.10"
directories = "5"
hmac = "0.12"
rand = "0.8"
rodio = { version = "0.19", default-features = false, features = ["symphonia-mp3"] }
serde = { version = "1", features = ["derive"] }
serde_json = "1"
sha1 = "0.10"
thiserror = "1"
ureq = { version = "2", features = ["json"] }
zeroize = { version = "1", features = ["derive"] }

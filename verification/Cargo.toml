[package]
name = "snow"
version = "0.1.0"
edition = "2021"
publish = false

[dependencies]
x25519-dalek = { version = "2", default-features = false }
sha2 = { version = "0.10", default-features = false }
blake2 = { version = "0.10", default-features = false }
chacha20poly1305 = { version = "0.10", default-features = false, features = ["alloc"] }
aes-gcm = { version = "0.10", default-features = false, features = ["alloc", "aes"] }
getrandom = "0.2"

[package]
name = "veccom"
version = "0.1.0"
edition = "2021"
publish = false

[dependencies]
pairing-plus = "=0.19.0"
ff-zeroize = "=0.6.3"
sha2 = "=0.8.2"

[package]
name = "enc"
version = "0.1.0"
edition = "2021"
publish = false

[dependencies]
aes-gcm = "0.10"
getrandom = "0.2"
hex = "0.4"
scrypt = "0.11"
sha2 = "0.10"
tar = "0.4"

[package]
name = "mlkem"
version = "0.1.0"
edition = "2021"
publish = false

[dependencies]
sha3 = "0.10"
aes-gcm = "0.10"
hex = "0.4"
rand = "0.8"
fips204 = "*"

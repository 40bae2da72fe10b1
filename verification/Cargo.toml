[package]
name = "ircx_sspi"
version = "0.1.0"
edition = "2021"
publish = false

[dependencies]
hmac = "=0.12.1"
md-5 = "=0.10.6"
md4 = "=0.11.0"
sspi = { version = "=0.23.1", default-features = false }
aes-gcm = "=0.10.3"
serde = { version = "=1.0.229", features = ["derive"] }
serde_json = "=1.0.154"
hex = "=0.4.3"
getrandom = "=0.2.17"
zeroize = "=1.9.1"

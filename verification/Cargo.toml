[package]
name = "echosafe"
version = "0.1.0"
edition = "2021"
publish = false

[dependencies]
aes-gcm = "0.10"
argon2 = "0.5"
rand = "0.8"
zeroize = "1"
anyhow = "1"
clap = { version = "4", features = ["derive"] }
hound = "3"
realfft = "3"
symphonia = { version = "0.5", features = ["all"] }

[package]
name = "threat_sentry"
version = "0.1.0"
edition = "2021"
publish = false

[dependencies]
rand = "0.8"
rustfft = "6"
clap = { version = "4", features = ["derive"] }
imap = "*"
notify-rust = "*"

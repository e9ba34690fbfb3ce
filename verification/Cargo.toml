[package]
name = "rxer"
version = "0.2.0"
edition = "2021"
publish = false

[dependencies]
aes = "0.8"
cbc = "0.1"
encoding_rs = "0.8"
url = "2"
serde = { version = "1", features = ["derive"] }
toml = "*"
ureq = "3"
rodio = "*"
chrono = "*"
ctrlc = "*"
mpeg2ts-reader = "*"
ratatui = "*"
crossterm = "*"

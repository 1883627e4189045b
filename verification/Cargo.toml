[package]
name = "pnwfrc_live"
version = "0.1.0"
edition = "2021"
publish = false

[dependencies]
chrono = "=0.4.45"
chrono-tz = "=0.10.4"
rocket = "=0.5.2"
lambda-web = { version = "=0.2.1", features = ["rocket05"] }

[dev-dependencies]
url = "=2.5.8"

[package]
name = "android_studio_releases"
version = "0.1.0"
edition = "2021"
publish = false

[dependencies]
chrono = "=0.4.45"
clap = "=4.6.7"
lazy_static = "=1.5.1"
reqwest = { version = "=0.12.28", features = ["blocking"] }
scraper = { version = "=0.20.0", features = ["deterministic"] }
url = "=2.5.8"

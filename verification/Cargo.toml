[package]
name = "lsfbot"
version = "0.1.0"
edition = "2021"
publish = false

[dependencies]
anyhow = "=1.0.104"
chrono = "=0.4.45"
chrono-humanize = "=0.2.3"
chrono-tz = "=0.10.4"
clap = { version = "=3.2.25", features = ["derive"] }
fern = "=0.6.2"
log = "=0.4.34"
reqwest = { version = "=0.10.10", default-features = false, features = ["blocking", "rustls-tls"] }
scraper = "=0.29.0"
serde = { version = "=1.0.229", features = ["derive"] }
serenity = "=0.8.9"
toml = "=0.5.11"

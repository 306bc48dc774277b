[package]
name = "erusert"
version = "0.2.0"
edition = "2021"
publish = false

[dependencies]
url = "2"
scraper = "0.20"
reqwest = { version = "0.12", default-features = false, features = ["blocking", "rustls-tls"] }
rand = "0.8"
crossterm = "0.27"
dialoguer = "0.11"
indicatif = "0.17"
dirs = "5"
serde = { version = "1", features = ["derive"] }
serde_json = "1"

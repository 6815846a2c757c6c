[package]
name = "wikipedia_scraper"
version = "0.1.0"
edition = "2021"
publish = false

[dependencies]
scraper = "*"
rustls = { version = "0.23", default-features = false, features = ["ring", "std", "tls12", "logging"] }
webpki-roots = "0.26"
clap = { version = "4", features = ["derive"] }
serde = { version = "1", features = ["derive"] }
serde_json = "1"
chrono = "0.4"
sanitize-filename = "*"

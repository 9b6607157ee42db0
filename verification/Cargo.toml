[package]
name = "optcg_scraper"
version = "0.1.0"
edition = "2021"
publish = false

[dependencies]
anyhow = "1"
log = "0.4"
reqwest = { version = "0.12", features = ["blocking"] }
scraper = "*"
serde = { version = "1", features = ["derive"] }

[package]
name = "gallery_crawl"
version = "0.1.0"
edition = "2021"
publish = false

[dependencies]
anyhow = "1"
chrono = { version = "0.4", default-features = false, features = ["clock"] }
clap = { version = "4", features = ["derive"] }
indicatif = "*"
rand = "0.9"
regex = "1"
reqwest = "*"
reqwest-middleware = "*"
reqwest-retry = "*"
scraper = "*"
tokio = { version = "1", features = ["rt-multi-thread", "macros", "time", "fs", "io-util"] }
url = "2"

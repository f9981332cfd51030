[package]
name = "bed_report"
version = "0.1.0"
edition = "2021"
publish = false

[dependencies]
calamine = "*"
chrono = "0.4"
chrono-tz = "*"
reqwest = { version = "*", default-features = false, features = ["rustls-tls"] }
scraper = "*"
serde = { version = "1", features = ["derive"] }
serde_json = "1"
tokio = { version = "1", features = ["macros", "rt-multi-thread"] }

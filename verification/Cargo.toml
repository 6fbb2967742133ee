[package]
name = "wiktparse"
version = "0.1.0"
edition = "2021"
publish = false

[dependencies]
axum = "*"
ego-tree = "*"
http = "*"
reqwest = { version = "*", default-features = false }
scraper = "*"
serde_json = "*"
tokio = { version = "*", features = ["rt", "net", "macros"] }
tower-http = { version = "*", features = ["cors"] }

[package]
name = "shortlink"
version = "0.1.0"
edition = "2021"
publish = false

[dependencies]
sha2 = "0.10"
rand = "0.8"
tokio = { version = "1", features = ["macros", "net", "rt-multi-thread", "sync"] }
axum = "0.7"
serde = { version = "1", features = ["derive"] }
serde_json = "1"
reqwest = { version = "0.12", default-features = false, features = ["json"] }
lettre = { version = "0.11", default-features = false, features = ["builder", "smtp-transport"] }
scraper = "0.19"
dotenv = "0.15"

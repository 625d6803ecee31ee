[package]
name = "ilovetv"
version = "0.1.0"
edition = "2021"
publish = false

[dependencies]
actix-files = "0.6"
actix-web = "4"
anyhow = "1"
chrono = "0.4"
dotenv = "0.15"
futures = "0.3"
reqwest = { version = "0.11", features = ["stream"] }
tokio = { version = "1", features = ["full"] }

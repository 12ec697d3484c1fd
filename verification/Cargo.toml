[package]
name = "parallel_import"
version = "1.0.0"
edition = "2021"
publish = false

[dependencies]
rand = "0.9"
clap = { version = "4", features = ["derive"] }
serde = { version = "1", features = ["derive"] }
serde_json = "1"
tokio = { version = "1", features = ["rt", "macros"] }
dotenv = "0.15"
meilisearch-sdk = "0.28"

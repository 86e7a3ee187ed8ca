[package]
name = "memoriz"
version = "0.1.0"
edition = "2021"
publish = false

[dependencies]
sled = "=0.34.7"
chrono = { version = "=0.4.45", features = ["serde"] }
uuid = { version = "=1.27.0", features = ["v5"] }
serde = "1"
serde_derive = "1"
serde_json = "1"
tokio-postgres = { version = "=0.7.18", features = ["with-chrono-0_4", "with-uuid-1", "with-serde_json-1"] }
deadpool-postgres = "=0.14.2"
meilisearch-sdk = "=0.33.0"
actix-rt = "=2.15.0"

[package]
name = "cnpj-sqlite"
version = "0.1.0"
edition = "2021"
publish = false

[dependencies]
actix-web = "4"
anyhow = "1"
chrono = "0.4"
clap = { version = "4", features = ["derive"] }
colored = "2"
csv = "1"
encoding_rs = "0.8"
encoding_rs_io = "0.1"
futures = "0.3"
glob = "0.3"
indicatif = "0.17"
num_cpus = "1"
reqwest = { version = "0.12", features = ["stream"] }
rusqlite = { version = "0.32", features = ["bundled"] }
scraper = "0.20"
serde = { version = "1", features = ["derive"] }
serde_json = "1"
tokio = { version = "1", features = ["full"] }
zip = { version = "2", default-features = false, features = ["deflate"] }

[package]
name = "turnik"
version = "0.1.0"
edition = "2021"
publish = false

[dependencies]
anyhow = "1"
chrono = "0.4"
http = "0.2"
hyper = "0.13"
regex = "1"
reqwest = { version = "0.10", default-features = false, features = ["json", "rustls-tls"] }
rusqlite = { version = "0.23", features = ["bundled"] }
select = "0.5"
serde = { version = "1", features = ["derive"] }
serde_json = "1"
tokio = { version = "0.2", features = ["full"] }
toml = "0.5"
url = "2"
warp = { version = "0.2", default-features = false }

[package]
name = "spider"
version = "0.1.0"
edition = "2021"
publish = false

[dependencies]
chrono = "=0.4.45"
clap = "3"
ctrlc = "3"
num_cpus = "1"
readability = "=0.3.0"
reqwest = { version = "0.12", default-features = false, features = ["blocking", "charset"] }
scraper = "=0.19.1"
serde = { version = "1", features = ["derive"] }
serde_json = "1"
toml = "0.8"
url = "=2.5.8"

[package]
name = "uk-property-search-data"
version = "0.1.0"
edition = "2021"
publish = false

[dependencies]
anyhow = "=1.0.104"
chrono = "=0.4.45"
clap = { version = "=3.2.25", default-features = false, features = ["derive", "std"] }
config = { version = "=0.13.4", default-features = false, features = ["toml"] }
futures = "=0.3.34"
log = "=0.4.34"
mongodb = "=2.8.2"
polars = { version = "0.26", default-features = false, features = ["csv-file"] }
regex = "=1.13.1"
reqwest = { version = "=0.11.27", default-features = false, features = ["json", "rustls-tls"] }
reqwest-middleware = "=0.2.5"
reqwest-retry = "=0.2.3"
scraper = "=0.17.1"
serde = { version = "=1.0.229", features = ["derive"] }
serde_json = "=1.0.154"
simple_logger = { version = "=4.3.3", default-features = false }
stopwatch = "=0.0.7"
tokio = { version = "=1.54.1", features = ["full"] }

[dev-dependencies]
statrs = "=0.16.1"

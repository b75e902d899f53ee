[package]
name = "sauce-api"
version = "0.1.0"
edition = "2021"
publish = false

[dependencies]
async-trait = "=0.1.92"
chrono = { version = "=0.4.45", default-features = false, features = ["serde", "std"] }
reqwest = { version = "=0.12.28", default-features = false, features = ["json", "multipart", "rustls-tls"] }
scraper = "=0.29.0"
serde = { version = "=1.0.229", features = ["derive"] }
serde_json = "=1.0.154"
strfmt = "=0.2.6"

[dev-dependencies]
hex = "=0.4.3"
select = "=0.6.1"
urlencoding = "=2.1.3"

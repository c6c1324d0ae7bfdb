[package]
name = "future_rss"
version = "0.1.0"
edition = "2021"
publish = false

[dependencies]
quick-xml = "=0.42.0"
reqwest = { version = "=0.13.5", default-features = false, features = ["blocking", "charset"] }

[dev-dependencies]
json = "=0.12.4"

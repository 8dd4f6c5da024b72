[package]
name = "sitemaps"
version = "0.1.0"
edition = "2021"
publish = false

[dependencies]
url = "=2.5.8"
time = { version = "=0.3.55", features = ["parsing", "formatting"] }
quick-xml = { version = "=0.42.0", features = ["serialize"] }
isolang = "=2.4.0"
serde = { version = "=1.0.229", features = ["derive"] }

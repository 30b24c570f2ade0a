[package]
name = "feed_engine"
version = "0.1.0"
edition = "2021"
publish = false

[dependencies]
rayon = "1"
serde = { version = "1", features = ["derive"] }
tera = { version = "1", default-features = false }

[package]
name = "places_to_mentat"
version = "0.1.0"
edition = "2021"
publish = false

[dependencies]
rand = "=0.8.8"
rusqlite = { version = "=0.40.2", features = ["bundled"] }
tempfile = "=3.27.0"

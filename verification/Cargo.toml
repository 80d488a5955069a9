[package]
name = "calibre"
version = "0.1.0"
edition = "2021"
publish = false

[dependencies]
rusqlite = { version = "0.32", features = ["bundled", "functions"] }
roxmltree = "0.20"
serde = { version = "1", features = ["derive"] }
serde_json = "1"
tempfile = "3"
unicode-normalization = "0.1"
uuid = { version = "1", features = ["v4"] }

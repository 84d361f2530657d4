[package]
name = "trsync"
version = "0.1.0"
edition = "2021"
publish = false

[dependencies]
log = "=0.4.34"
notify = "=4.0.18"
reqwest = { version = "=0.11.27", default-features = false, features = ["blocking", "json", "multipart"] }
rusqlite = { version = "=0.40.2", features = ["bundled"] }
serde_json = "1"
walkdir = "=2.5.0"

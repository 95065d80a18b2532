[package]
name = "timetrack_store"
version = "0.1.0"
edition = "2021"
publish = false

[dependencies]
rusqlite = { version = "*", features = ["bundled"] }
uuidv7 = "*"
serde = { version = "*", features = ["derive"] }

[package]
name = "local_file_intelligence"
version = "0.1.0"
edition = "2021"
publish = false

[dependencies]
quick-xml = "0.37"
chrono = { version = "0.4", default-features = false, features = ["alloc", "std", "clock"] }
sha2 = "0.10"
rusqlite = { version = "0.32", features = ["bundled"] }
walkdir = "2"
notify = "7"
notify-debouncer-full = "0.4"
pdf-extract = "0.7"
zip = { version = "2", default-features = false, features = ["deflate"] }
serde = { version = "1", features = ["derive"] }
log = "0.4"
env_logger = "0.11"

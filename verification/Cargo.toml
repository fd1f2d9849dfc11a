[package]
name = "rust_sqlite_async"
version = "0.1.0"
edition = "2021"
publish = false

[dependencies]
crossbeam-channel = "*"
log = "*"
r2d2 = "*"
r2d2_sqlite = { version = "*", features = ["bundled"] }
rusqlite = { version = "*", features = ["bundled"] }

[dev-dependencies]
tempfile = "*"

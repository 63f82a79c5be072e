[package]
name = "evm-sqlite"
version = "0.1.0"
edition = "2021"
publish = false

[dependencies]
ruint = "1"
rusqlite = { version = "*", features = ["bundled", "functions"] }

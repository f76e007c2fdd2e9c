[package]
name = "tucan"
version = "0.1.0"
edition = "2021"
publish = false

[dependencies]
dashmap = "5"
once_cell = "1"
parking_lot = "0.12"
siphasher = "0.3"
twox-hash = { version = "1", default-features = false }

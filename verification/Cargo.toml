[package]
name = "shared_table"
version = "0.1.0"
edition = "2021"
publish = false

[dependencies]
futures = "0.1"
log = "0.4"
parking_lot = "0.12"
sp-core = { version = "*", default-features = false, features = ["std", "full_crypto"] }

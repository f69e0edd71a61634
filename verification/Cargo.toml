[package]
name = "crdt_sled"
version = "0.1.0"
edition = "2021"
publish = false

[dependencies]
sled = "0.34"
serde = "1"
serde_json = "1"
chrono = "0.4"

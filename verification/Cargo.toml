[package]
name = "pref_id"
version = "0.1.0"
edition = "2021"
publish = false

[dependencies]
serde = "1"
uuid = "1"

[dev-dependencies]
serde_test = "1"

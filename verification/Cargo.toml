[package]
name = "dirtyqueue"
version = "0.1.0"
edition = "2021"
publish = false

[dependencies]
ciborium = "0.2"
fs2 = "0.4"
proc-macro2 = "1"
quote = "1"
serde = { version = "1", features = ["derive"] }
syn = "2"

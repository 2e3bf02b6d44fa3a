[package]
name = "flowjs-rs"
version = "0.1.0"
edition = "2021"
publish = false

[dependencies]
syn = { version = "2", features = ["full", "extra-traits"] }
proc-macro2 = "1"
quote = "1"
toml = "0.8"
serde = { version = "1", features = ["derive"] }
serde_json = "1"

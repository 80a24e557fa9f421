[package]
name = "sapio_pathways"
version = "0.1.0"
edition = "2021"
publish = false

[dependencies]
schemars = { version = "0.8", default-features = false }
lazy_static = "1.4"

[dev-dependencies]
serde_json = "1"

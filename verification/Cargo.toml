[package]
name = "mdbook_preprocessors"
version = "0.1.0"
edition = "2021"
publish = false

[dependencies]
mdbook = { version = "0.4", default-features = false }
regex = "1"
serde_json = "1"
serde_yaml = "0.9"
toml = "0.5"
hashbrown = { version = "0.14", features = ["serde"] }
log = "0.4"

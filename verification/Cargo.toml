[package]
name = "banditrs"
version = "0.2.0"
edition = "2021"
publish = false

[dependencies]
regex = "=1.13.1"
indexmap = "=2.14.2"
serde_json = "=1.0.154"
toml = "=1.1.8"
rayon = "=1.12.0"
rustc-hash = "=2.1.3"
typed-arena = "=2.0.2"

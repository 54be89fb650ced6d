[package]
name = "gnd"
version = "0.1.0"
edition = "2021"
publish = false

[dependencies]
regex = "=1.13.1"
unicode-normalization = "=0.1.25"
clap = { version = "=3.2.25", features = ["derive"] }
serde = { version = "=1.0.229", features = ["derive"] }
toml = "=1.1.7"
csv = "=1.4.0"
sophia = "=0.7.2"
sophia_api = "=0.7.2"

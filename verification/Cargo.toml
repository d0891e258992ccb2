[package]
name = "yharnam"
version = "0.1.0"
edition = "2021"

[dependencies]
csv = "1"
intl_pluralrules = "7"
prost = "0.11"
rand = "0.8"
serde = { version = "1", features = ["derive"] }
unic-langid = "0.9"

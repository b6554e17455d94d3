[package]
name = "mdreader"
version = "0.1.0"
edition = "2021"
publish = false

[dependencies]
unicode-width = "0.2"
semver = "1"
pulldown-cmark = "0.13"
ascii-dag = "0.9"
ratatui = "0.29"
crossterm = "0.28"
serde = { version = "1", features = ["derive"] }
serde_json = "1"
toml = "0.8"
dirs = "6"
ignore = "0.4"
ureq = "3"

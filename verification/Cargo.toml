[package]
name = "shatter"
version = "0.1.0"
edition = "2021"
publish = false

[dependencies]
semver = "1"
clap = { version = "4", features = ["derive"] }
clap_complete = "4"
crossterm = "0.28"
ratatui = "0.29"
directories = "5"
serde = { version = "1", features = ["derive"] }
toml = "0.8"
trash = "5"
walkdir = "2"
rayon = "1"
tempfile = "3"
flate2 = "1"
tar = "0.4"
zip = { version = "2", default-features = false, features = ["deflate"] }
reqwest = { version = "0.12", default-features = false, features = ["blocking", "json", "rustls-tls"] }
indicatif = "0.17"
self-replace = "1"
miette = "7"
tracing = "0.1"
tracing-subscriber = { version = "0.3", features = ["env-filter"] }

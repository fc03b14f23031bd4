[package]
name = "diener"
version = "0.1.0"
edition = "2021"
publish = false

[dependencies]
anyhow = "1"
git-url-parse = "0.4"
log = "0.4"
reqwest = { version = "0.11", features = ["blocking"] }
serde_json = "1"
structopt = "0.3"
toml_edit = "0.19"
walkdir = "2"

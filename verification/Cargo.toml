[package]
name = "webgenr"
version = "0.1.0"
edition = "2021"
publish = false

[dependencies]
anyhow = "=1.0.104"
clap = { version = "=3.2.25", features = ["derive"] }
epub-builder = "=0.7.4"
eyre = "=0.6.14"
handlebars = { version = "=4.5.0", features = ["dir_source"] }
log = "=0.4.34"
mime_guess = "=2.0.5"
pretty_env_logger = "=0.4.0"
pulldown-cmark = "=0.9.6"
serde_yaml = "=0.9.34"
walkdir = "=2.5.0"

[dev-dependencies]
zip = { version = "=0.6.6", default-features = false, features = ["deflate"] }

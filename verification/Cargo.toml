[package]
name = "mark"
version = "0.1.0"
edition = "2021"
publish = false

[dependencies]
pulldown-cmark = "0.12"
dirs = "5"
open = "5"
toml = "0.8"
serde = { version = "1", features = ["derive"] }
clap = { version = "4", features = ["derive"] }
clap_complete = "4"
anyhow = "1"
thiserror = "1"

[dev-dependencies]
tempfile = "3"

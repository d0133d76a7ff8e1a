[package]
name = "seekable_reader"
version = "0.1.0"
edition = "2021"
publish = false

[dependencies]
anyhow = "1"
clap = { version = "4", features = ["derive"] }
log = "0.4"
rayon = "1"
reqwest = { version = "0.11", features = ["blocking"] }
thiserror = "1"
zip = { version = "0.6", default-features = false, features = ["deflate"] }

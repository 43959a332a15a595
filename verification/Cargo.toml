[package]
name = "pen"
version = "0.5.0"
edition = "2021"
publish = false

[dependencies]
semver = "1"
zip = { version = "2", default-features = false, features = ["deflate"] }
ureq = { version = "2", features = ["json"] }
serde = { version = "1", features = ["derive"] }
serde_json = "1"
toml = "0.8"
clap = "4"
home = "0.5"

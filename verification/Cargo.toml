[package]
name = "tgit"
version = "0.1.0"
edition = "2021"
publish = false

[dependencies]
git2 = "*"
inquire = "*"
regex = "1"
reqwest = { version = "*", features = ["blocking"] }
semver = "1"
serde_json = "1"
structopt = "0.3"

[package]
name = "changelogger"
version = "0.1.0"
edition = "2021"
publish = false

[dependencies]
anyhow = "*"
chrono = "*"
clap = { version = "*", features = ["derive"] }
dialoguer = "*"
git2 = "*"
owo-colors = "*"
semver = "*"

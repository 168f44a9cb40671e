[package]
name = "awsome"
version = "0.1.0"
edition = "2021"
publish = false

[dependencies]
anyhow = "1"
chrono = "0.4"
clap = { version = "4", features = ["derive"] }
console = "*"
dialoguer = { version = "*", features = ["fuzzy-select"] }
indicatif = "*"
serde = { version = "1", features = ["derive"] }
serde_json = "1"

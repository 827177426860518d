[package]
name = "heco"
version = "0.1.0"
edition = "2021"
publish = false

[dependencies]
anstream = "0.6"
anyhow = "1"
clap = { version = "4", features = ["derive"] }
clap_complete = { version = "4", features = ["unstable-dynamic"] }
dialoguer = "0.11"
dirs = "*"
indicatif = "*"
owo-colors = "4"
serde = { version = "1", features = ["derive"] }
serde_json = "1"
toml = "*"

[package]
name = "penguinwave"
version = "0.3.0"
edition = "2021"
publish = false

[dependencies]
serde = { version = "=1.0.229", features = ["derive"] }
serde_json = "=1.0.154"
toml = "=0.8.23"
hidapi = "=2.6.7"
clap = { version = "4", features = ["derive"] }
clap_complete = "4"

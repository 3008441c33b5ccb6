[package]
name = "extension_survey"
version = "0.1.0"
edition = "2021"
publish = false

[dependencies]
anyhow = "1"
clap = { version = "4", features = ["derive"] }
serde = { version = "1", features = ["derive"] }
serde_json_lenient = "*"
tokio = { version = "1", features = ["full"] }
toml = "0.8"
url = "2"

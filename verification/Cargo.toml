[package]
name = "json_exporter"
version = "0.1.0"
edition = "2021"
publish = false

[dependencies]
serde_json = "=1.0.151"
convert_case = "=0.1.0"
serde = { version = "=1.0.229", features = ["derive"] }
serde_yaml = "=0.9.34"
clap = { version = "=4.6.7", features = ["derive"] }
reqwest = { version = "=0.13.5", default-features = false, features = ["blocking"] }
rocket = { version = "=0.5.1", default-features = false }

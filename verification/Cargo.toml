[package]
name = "exegesis"
version = "0.1.0"
edition = "2021"
publish = false

[dependencies]
chrono = { version = "0.4", default-features = false, features = ["std", "serde"] }
clap = { version = "2", default-features = false }
hyper = { version = "0.10", default-features = false }
kuchiki = "0.8"
mime = "0.2"
regex = "1"
serde = { version = "1", features = ["derive"] }
serde_json = "1"
toml = { version = "0.2", default-features = false }

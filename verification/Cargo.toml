[package]
name = "config_types"
version = "0.1.0"
edition = "2021"
publish = false

[dependencies]
chrono = { version = "0.4", default-features = false, features = ["std"] }
regex = "1"
serde = "1"
thiserror = "1"

[dev-dependencies]
rand = "0.8"
serde_json = "1"

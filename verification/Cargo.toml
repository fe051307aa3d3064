[package]
name = "repopt"
version = "0.1.0"
edition = "2021"
publish = false

[dependencies]
toml = { version = "=0.8.23", features = ["preserve_order"] }
serde = { version = "=1.0.229", features = ["derive"] }
serde_json = "=1.0.154"
serde_yaml = "=0.9.34"
clap = { version = "=4.6.7", features = ["derive"] }
inquire = "=0.9.4"
gix = { version = "=0.90.0", default-features = false, features = ["sha1"] }

[package]
name = "ycallr"
version = "0.1.0"
edition = "2021"
publish = false

[dependencies]
serde_json = "1"
keyring = "3"
rpassword = "7"
dirs = "6"
tracing = "0.1"
tracing-subscriber = { version = "0.3", features = ["env-filter"] }

[dev-dependencies]
tempfile = "3"

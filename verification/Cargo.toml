[package]
name = "felix"
version = "0.1.0"
edition = "2021"
publish = false

[dependencies]
dirs = "*"
regex = "1"
serde = { version = "1", features = ["derive"] }
serde_yaml = "0.9"
serde_json = "1"
toml = "*"
grep-regex = "*"
grep-searcher = "*"
ignore = "*"
log = "0.4"
env_logger = { version = "*", default-features = false }
lopdf = { version = "*", default-features = false }
image = { version = "*", default-features = false }

[package]
name = "config_chain"
version = "0.1.0"
edition = "2021"
publish = false

[dependencies]
clap = { version = "4", features = ["env"] }
config = { version = "0.13", default-features = false, features = ["toml", "json", "yaml"] }
serde_json = "1"
serde = { version = "1", features = ["derive"] }
serde_yaml = "0.9"
toml = "0.8"
directories = "5"
log = "0.4"
env_logger = "0.10"
actix-web = "4"
actix-multipart = "0.6"
futures-util = "0.3"
tera = "1"

[dev-dependencies]
tempfile = "3"

[package]
name = "blog_core"
version = "0.1.0"
edition = "2021"
publish = false

[dependencies]
actix-cors = "0.7"
actix-rt = "2"
actix-web = { version = "4", default-features = false, features = ["macros"] }
chrono = "0.4"
env_logger = "0.11"
log = "0.4"
mongodb = { version = "*", features = ["sync"] }
redis = "*"
serde = { version = "1", features = ["derive"] }
toml = "0.8"

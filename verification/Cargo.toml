[package]
name = "mpeix"
version = "0.1.0"
edition = "2021"
publish = false

[dependencies]
chrono = "0.4"
regex = "1"
lru = "*"
toml = "*"
serde = { version = "1", features = ["derive"] }
serde_json = "1"
tokio = { version = "1", features = ["rt-multi-thread", "macros", "sync", "fs", "io-util"] }
actix-web = { version = "4", default-features = false, features = ["macros"] }
reqwest = { version = "*", default-features = false, features = ["json"] }
anyhow = "1"
log = "0.4"
env_logger = "*"
tokio-postgres = "*"
deadpool-postgres = "*"
envmnt = "*"
rand = "0.8"

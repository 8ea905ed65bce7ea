[package]
name = "discord_auth"
version = "0.1.0"
edition = "2021"
publish = false

[dependencies]
jsonwebtoken = { version = "=11.1.0", default-features = false, features = ["rust_crypto"] }
chrono = "=0.4.45"
rand = "=0.10.3"
serde = { version = "=1.0.229", features = ["derive"] }
actix-web = "=4.15.0"
actix-files = "=0.7.0"
reqwest = { version = "=0.13.5", features = ["json", "form"] }
dotenv = "=0.15.0"
envy = "=0.4.2"
log = "=0.4.34"
env_logger = "=0.11.11"

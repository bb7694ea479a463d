[package]
name = "record_store"
version = "0.1.0"
edition = "2021"
publish = false

[dependencies]
actix-web = "4"
diesel = { version = "2", features = ["postgres"] }
diesel_migrations = "2"
dotenv = "0.15"
env_logger = "0.11"
serde = { version = "1", features = ["derive"] }
serde_json = "1"

[package]
name = "kprs_web_api"
version = "0.1.0"
edition = "2021"
publish = false

[dependencies]
rand = "0.9"
dashmap = "6"
actix-web = "4"
actix-ws = "0.3"
actix-cors = "0.7"
deadpool-redis = "0.23"
redis = "1"
dotenvy = "0.15"
futures = "0.3"
futures-util = "0.3"
once_cell = "1"
serde = { version = "1", features = ["derive"] }
strum = { version = "0.27", features = ["derive"] }
time = { version = "0.3", features = ["macros", "formatting"] }
tokio = { version = "1", features = ["full"] }

[package]
name = "not_redis"
version = "0.1.0"
edition = "2021"
publish = false

[dependencies]
actix-web = "4"
chrono = { version = "0.4", features = ["serde"] }
dashmap = "6"
error_mapper = "*"
futures-util = "0.3"
serde = { version = "1", features = ["derive"] }
serde_json = "1"
the_logger = "*"
tokio = { version = "1", features = ["full"] }
uuid = { version = "1", features = ["v4"] }

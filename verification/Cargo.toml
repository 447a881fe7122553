[package]
name = "order_service"
version = "0.1.0"
edition = "2021"
publish = false

[dependencies]
env_logger = "0.11"
itertools = "0.13"
log = "0.4"
prost = "0.13"
prost-types = "0.13"
sqlx = { version = "0.8", default-features = false, features = ["mysql", "runtime-tokio", "chrono"] }
thiserror = "1"
tokio = { version = "1", features = ["macros", "rt-multi-thread"] }
tonic = "0.12"
tonic-reflection = "0.12"
uuid = { version = "1", features = ["v4"] }
